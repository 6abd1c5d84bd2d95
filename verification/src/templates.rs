use vstd::prelude::*;
use crate::color::{joined, runs_of, Color, RunModel};
use crate::highlighter::{CodeHighligher, HighlightError};
use crate::text::{extension_of, infer_extension, is_substring, lemma_empty_is_substring, opt_text, str_contains, str_eq};

verus! {

/// Why a store operation failed.
#[derive(Clone, Copy, Debug, PartialEq, Eq, Structural)]
pub enum StoreError {
    /// The persisted document exists but does not describe a store.
    CorruptStore,
    /// The file system refused a read or a write.
    IoError,
}

/// The hint under which a template without an extension is highlighted.
pub const FALLBACK: &'static str = "txt";

/// A named piece of reusable text.
#[derive(Debug, Clone)]
pub struct Template {
    name: String,
    ext: Option<String>,
    description: Option<String>,
    template: String,
    highlighted_template: Option<Vec<(String, Color)>>,
}

impl Template {
    /// The name, the store's key.
    pub closed spec fn name_view(&self) -> Seq<char> {
        self.name@
    }

    /// The extension taken from the name at construction.
    pub closed spec fn ext_view(&self) -> Option<Seq<char>> {
        opt_text(self.ext)
    }

    /// The free-text description.
    pub closed spec fn description_view(&self) -> Option<Seq<char>> {
        opt_text(self.description)
    }

    /// The raw content.
    pub closed spec fn body_view(&self) -> Seq<char> {
        self.template@
    }

    /// The cached runs, where highlighting has been computed.
    pub closed spec fn runs_view(&self) -> Option<Seq<RunModel>> {
        match self.highlighted_template {
            Some(v) => Some(runs_of(v@)),
            None => None,
        }
    }

    /// The extension is the one the name carries, and a cache that is
    /// present re-segments the body without loss.
    pub open spec fn wf(&self) -> bool {
        &&& self.ext_view() == extension_of(self.name_view())
        &&& match self.runs_view() {
            Some(runs) => joined(runs) == self.body_view(),
            None => true,
        }
    }

    /// The template matches `query`: its name, its description or its body
    /// contains the query.
    pub open spec fn matches(&self, query: Seq<char>) -> bool {
        ||| is_substring(self.name_view(), query)
        ||| match self.description_view() {
            Some(d) => is_substring(d, query),
            None => false,
        }
        ||| is_substring(self.body_view(), query)
    }

    pub fn new(name: String, description: Option<String>, template: String) -> (t: Template)
        ensures
            t.name_view() == name@,
            t.ext_view() == extension_of(name@),
            t.description_view() == opt_text(description),
            t.body_view() == template@,
            t.runs_view() is None,
            t.wf(),
    {
        let ext = infer_extension(name.as_str());
        Template { name, ext, description, template, highlighted_template: None }
    }

    pub fn name(&self) -> (r: &str)
        ensures
            r@ == self.name_view(),
    {
        self.name.as_str()
    }

    pub fn extension(&self) -> (r: Option<&str>)
        ensures
            match r {
                Some(e) => self.ext_view() == Some(e@),
                None => self.ext_view() is None,
            },
    {
        match &self.ext {
            Some(e) => Some(e.as_str()),
            None => None,
        }
    }

    pub fn description(&self) -> (r: Option<&str>)
        ensures
            match r {
                Some(d) => self.description_view() == Some(d@),
                None => self.description_view() is None,
            },
    {
        match &self.description {
            Some(d) => Some(d.as_str()),
            None => None,
        }
    }

    pub fn body(&self) -> (r: &str)
        ensures
            r@ == self.body_view(),
    {
        self.template.as_str()
    }

    pub fn highlighted_template(&self) -> (r: Option<&Vec<(String, Color)>>)
        ensures
            match r {
                Some(v) => self.runs_view() == Some(runs_of(v@)),
                None => self.runs_view() is None,
            },
    {
        self.highlighted_template.as_ref()
    }

    /// The hint handed to the highlighter: the extension, or the fallback.
    pub open spec fn hint(&self) -> Seq<char> {
        match self.ext_view() {
            Some(e) => e,
            None => FALLBACK@,
        }
    }

    /// `self` and `other` differ in their cache at most.
    pub open spec fn same_record(&self, other: Template) -> bool {
        &&& self.name_view() == other.name_view()
        &&& self.ext_view() == other.ext_view()
        &&& self.description_view() == other.description_view()
        &&& self.body_view() == other.body_view()
    }

    /// What highlighting with the tables `tables` makes of `self`: `after`
    /// is the same record, its cache holds the runs of the body under the
    /// hint, and is unset where highlighting fails with `r`.
    pub open spec fn highlighted_as(
        &self,
        tables: CodeHighligher,
        after: Template,
        r: Result<(), HighlightError>,
    ) -> bool {
        &&& after.same_record(*self)
        &&& match tables.highlighted(self.hint(), self.body_view()) {
            Ok(runs) => r == Ok::<(), HighlightError>(()) && after.runs_view() == Some(runs),
            Err(e) => r == Err::<(), HighlightError>(e) && after.runs_view() is None,
        }
    }

    /// Takes over what a highlighter made of the body: its runs become the
    /// cache, and its failure unsets the cache and is handed on.
    pub fn set_highlighted(&mut self, outcome: Result<Vec<(String, Color)>, HighlightError>) -> (r:
        Result<(), HighlightError>)
        requires
            match outcome {
                Ok(v) => joined(runs_of(v@)) == old(self).body_view(),
                Err(_) => true,
            },
        ensures
            final(self).same_record(*old(self)),
            match outcome {
                Ok(v) => r == Ok::<(), HighlightError>(()) && final(self).runs_view() == Some(
                    runs_of(v@),
                ),
                Err(e) => r == Err::<(), HighlightError>(e) && final(self).runs_view() is None,
            },
            old(self).wf() ==> final(self).wf(),
    {
        match outcome {
            Ok(runs) => {
                self.highlighted_template = Some(runs);
                Ok(())
            },
            Err(e) => {
                self.highlighted_template = None;
                Err(e)
            },
        }
    }

    /// Computes the cache of runs with the given tables. On failure the
    /// cache is unset.
    pub fn highlight_with(&mut self, tables: &CodeHighligher) -> (r: Result<(), HighlightError>)
        requires
            tables.wf(),
        ensures
            old(self).highlighted_as(*tables, *final(self), r),
            r == Err::<(), HighlightError>(HighlightError::UnsupportedLanguage)
                <==> !tables.supports(old(self).hint()),
            match final(self).runs_view() {
                Some(runs) => joined(runs) == final(self).body_view(),
                None => true,
            },
            old(self).wf() ==> final(self).wf(),
    {
        let outcome = match &self.ext {
            Some(ext) => tables.highlight(ext.as_str(), self.template.as_str()),
            None => tables.highlight(FALLBACK, self.template.as_str()),
        };
        self.set_highlighted(outcome)
    }

    /// Computes the cache of runs with freshly loaded default tables. On
    /// failure the cache is unset.
    pub fn highlight(&mut self) -> (r: Result<(), HighlightError>)
        ensures
            exists|tables: CodeHighligher|
                tables.wf() && #[trigger] old(self).highlighted_as(tables, *final(self), r),
            final(self).same_record(*old(self)),
            match r {
                Ok(_) => final(self).runs_view() is Some && joined(final(self).runs_view().unwrap())
                    == final(self).body_view(),
                Err(_) => final(self).runs_view() is None,
            },
            old(self).wf() ==> final(self).wf(),
    {
        let highlighter = CodeHighligher::default();
        self.highlight_with(&highlighter)
    }

    /// Whether the template matches `query`.
    pub fn contains(&self, query: &str) -> (r: bool)
        ensures
            r == self.matches(query@),
    {
        if str_contains(self.name.as_str(), query) {
            return true;
        }
        let in_description = match &self.description {
            Some(d) => str_contains(d.as_str(), query),
            None => false,
        };
        in_description || str_contains(self.template.as_str(), query)
    }
}

/// No two templates of `s` share a name.
pub open spec fn names_unique(s: Seq<Template>) -> bool {
    forall|i: int, j: int|
        0 <= i < j < s.len() ==> (#[trigger] s[i]).name_view() != (#[trigger] s[j]).name_view()
}

/// Some template of `s` is called `name`.
pub open spec fn has_name(s: Seq<Template>, name: Seq<char>) -> bool {
    exists|i: int| 0 <= i < s.len() && (#[trigger] s[i]).name_view() == name
}

/// `i` is the first position in `s` of a template called `name`.
pub open spec fn is_first_named(s: Seq<Template>, name: Seq<char>, i: int) -> bool {
    &&& 0 <= i < s.len()
    &&& s[i].name_view() == name
    &&& forall|j: int| 0 <= j < i ==> (#[trigger] s[j]).name_view() != name
}

/// The first position in `s` of a template called `name`.
pub open spec fn first_named(s: Seq<Template>, name: Seq<char>) -> int {
    choose|i: int| is_first_named(s, name, i)
}

/// The store's sequence after `t` was put: `t` stands where the first
/// template of its name stood, or at the end where there was none.
pub open spec fn put_into(s: Seq<Template>, t: Template) -> Seq<Template> {
    if has_name(s, t.name_view()) {
        s.update(first_named(s, t.name_view()), t)
    } else {
        s.push(t)
    }
}

/// The templates of `s` that match `query`, in the order of `s`.
pub open spec fn matching(s: Seq<Template>, query: Seq<char>) -> Seq<Template> {
    s.filter(|t: Template| t.matches(query))
}

/// The templates that a sequence of references points at.
pub open spec fn pointed(r: Seq<&Template>) -> Seq<Template> {
    r.map_values(|t: &Template| *t)
}

/// A first position is the only first position.
pub proof fn lemma_first_named(s: Seq<Template>, name: Seq<char>, i: int)
    requires
        is_first_named(s, name, i),
    ensures
        has_name(s, name),
        first_named(s, name) == i,
{
    let c = first_named(s, name);
    assert(is_first_named(s, name, c));
    if c < i {
        assert(s[c].name_view() != name);
    }
    if i < c {
        assert(s[i].name_view() != name);
    }
}

/// Where some template of `s` is called `name`, one of them is the first.
pub proof fn lemma_has_first(s: Seq<Template>, name: Seq<char>)
    requires
        has_name(s, name),
    ensures
        is_first_named(s, name, first_named(s, name)),
{
    let k = choose|i: int| 0 <= i < s.len() && (#[trigger] s[i]).name_view() == name;
    lemma_first_below(s, name, k);
}

/// Below a position that holds `name` there is a first such position.
pub proof fn lemma_first_below(s: Seq<Template>, name: Seq<char>, k: int)
    requires
        0 <= k < s.len(),
        s[k].name_view() == name,
    ensures
        is_first_named(s, name, first_named(s, name)),
        first_named(s, name) <= k,
    decreases k,
{
    if forall|j: int| 0 <= j < k ==> (#[trigger] s[j]).name_view() != name {
        assert(is_first_named(s, name, k));
        lemma_first_named(s, name, k);
    } else {
        let j = choose|j: int| 0 <= j < k && (#[trigger] s[j]).name_view() == name;
        lemma_first_below(s, name, j);
    }
}

/// Putting a template into a sequence without repeated names leaves it
/// without repeated names.
pub proof fn lemma_put_keeps_names_unique(s: Seq<Template>, t: Template)
    requires
        names_unique(s),
    ensures
        names_unique(put_into(s, t)),
{
    let name = t.name_view();
    let out = put_into(s, t);
    if has_name(s, name) {
        lemma_has_first(s, name);
        let k = first_named(s, name);
        assert forall|i: int, j: int| 0 <= i < j < out.len() implies (#[trigger] out[i]).name_view()
            != (#[trigger] out[j]).name_view() by {
            assert(s[i].name_view() != s[j].name_view());
            assert(out[i].name_view() == s[i].name_view());
            assert(out[j].name_view() == s[j].name_view());
        }
    } else {
        assert forall|i: int, j: int| 0 <= i < j < out.len() implies (#[trigger] out[i]).name_view()
            != (#[trigger] out[j]).name_view() by {
            if j < s.len() {
                assert(s[i].name_view() != s[j].name_view());
            } else {
                assert(s[i].name_view() != name);
            }
        }
    }
}

/// The store after each template of `ts` was put, in order, into `s`.
pub open spec fn put_all(s: Seq<Template>, ts: Seq<Template>) -> Seq<Template>
    decreases ts.len(),
{
    if ts.len() == 0 {
        s
    } else {
        put_into(put_all(s, ts.drop_last()), ts.last())
    }
}

/// After any sequence of puts into the empty store, no two templates of the
/// store share a name.
pub proof fn lemma_puts_keep_names_unique(ts: Seq<Template>)
    ensures
        names_unique(put_all(Seq::empty(), ts)),
    decreases ts.len(),
{
    if ts.len() > 0 {
        lemma_puts_keep_names_unique(ts.drop_last());
        lemma_put_keeps_names_unique(put_all(Seq::empty(), ts.drop_last()), ts.last());
    }
}

/// A put under a name that the store holds changes that one position and
/// nothing else: the length, the order and every other template stay.
pub proof fn lemma_put_replaces_in_place(s: Seq<Template>, t: Template, k: int)
    requires
        names_unique(s),
        0 <= k < s.len(),
        s[k].name_view() == t.name_view(),
    ensures
        put_into(s, t) == s.update(k, t),
        put_into(s, t).len() == s.len(),
        put_into(s, t)[k] == t,
        forall|i: int| 0 <= i < s.len() && i != k ==> put_into(s, t)[i] == s[i],
{
    assert(is_first_named(s, t.name_view(), k)) by {
        assert forall|j: int| 0 <= j < k implies (#[trigger] s[j]).name_view()
            != t.name_view() by {
            assert(s[j].name_view() != s[k].name_view());
        }
    }
    lemma_first_named(s, t.name_view(), k);
}

/// A put under a name that the store lacks appends the template.
pub proof fn lemma_put_appends_new(s: Seq<Template>, t: Template)
    requires
        !has_name(s, t.name_view()),
    ensures
        put_into(s, t) == s.push(t),
{
}

/// Highlighting a template a second time with the same tables, unmodified
/// in between, gives the runs and the outcome of the first time.
pub proof fn lemma_highlight_twice(
    tables: CodeHighligher,
    t0: Template,
    t1: Template,
    t2: Template,
    r1: Result<(), HighlightError>,
    r2: Result<(), HighlightError>,
)
    requires
        t0.highlighted_as(tables, t1, r1),
        t1.highlighted_as(tables, t2, r2),
    ensures
        t2.runs_view() == t1.runs_view(),
        r2 == r1,
{
}

/// The empty query matches every template, so searching for it gives the
/// whole store back.
pub proof fn lemma_empty_query_matches_all(s: Seq<Template>)
    ensures
        matching(s, Seq::<char>::empty()) == s,
    decreases s.len(),
{
    let pred = |t: Template| t.matches(Seq::<char>::empty());
    reveal(Seq::filter);
    if s.len() > 0 {
        lemma_empty_query_matches_all(s.drop_last());
        lemma_empty_is_substring(s.last().name_view());
        assert(pred(s.last()));
        assert(s.drop_last().push(s.last()) =~= s);
    } else {
        assert(s.filter(pred) =~= s);
    }
}

/// A search returns exactly the matching templates: each one that it
/// returns matches, and each template of the store that matches is
/// returned.
pub proof fn lemma_search_exact(s: Seq<Template>, query: Seq<char>)
    ensures
        forall|i: int|
            0 <= i < matching(s, query).len() ==> (#[trigger] matching(s, query)[i]).matches(
                query,
            ) && s.contains(matching(s, query)[i]),
        forall|i: int|
            0 <= i < s.len() && (#[trigger] s[i]).matches(query) ==> matching(s, query).contains(
                s[i],
            ),
{
    let pred = |t: Template| t.matches(query);
    assert forall|i: int| 0 <= i < matching(s, query).len() implies (#[trigger] matching(
        s,
        query,
    )[i]).matches(query) && s.contains(matching(s, query)[i]) by {
        s.lemma_filter_pred(pred, i);
        assert(s.filter(pred).contains(s.filter(pred)[i]));
        s.lemma_filter_contains_rev(pred, s.filter(pred)[i]);
    }
    assert forall|i: int| 0 <= i < s.len() && (#[trigger] s[i]).matches(query) implies matching(
        s,
        query,
    ).contains(s[i]) by {
        s.lemma_filter_contains(pred, i);
    }
}

/// What a persisted document turned out to be when it was read.
pub enum Document {
    /// Nothing exists at the path.
    Missing,
    /// Something exists there, and it is no list of template records.
    Malformed,
    /// The records of the document, in its order.
    Records(Vec<Template>),
}

/// What every template store offers.
pub trait ITemaplteRepository {
    /// The templates of the store, in insertion order.
    spec fn entries(&self) -> Seq<Template>;

    /// The template called `name`, where the store holds one.
    fn get(&self, name: &str) -> (r: Option<&Template>)
        ensures
            match r {
                Some(t) => is_first_named(self.entries(), name@, first_named(self.entries(), name@))
                    && *t == self.entries()[first_named(self.entries(), name@)],
                None => !has_name(self.entries(), name@),
            },
    ;

    /// All templates, in insertion order.
    fn list(&self) -> (r: &Vec<Template>)
        ensures
            r@ == self.entries(),
    ;

    /// The templates whose name, description or body contains `query`, in
    /// the order of `list`.
    fn search(&self, query: &str) -> (r: Vec<&Template>)
        ensures
            pointed(r@) == matching(self.entries(), query@),
    ;

    /// Replaces the template of the same name where it stands, or appends.
    fn put(&mut self, template: Template) -> (r: Result<(), StoreError>)
        ensures
            r is Ok,
            final(self).entries() == put_into(old(self).entries(), template),
            names_unique(old(self).entries()) ==> names_unique(final(self).entries()),
    ;
}

/// A template store that is persisted as one JSON document.
pub struct JSONTemplateRepository {
    templates: Vec<Template>,
}

/// Whether no two templates of `v` share a name.
pub fn names_distinct(v: &Vec<Template>) -> (b: bool)
    ensures
        b == names_unique(v@),
{
    let n: usize = v.len();
    let mut j: usize = 0;
    while j < n
        invariant
            j <= n,
            n == v@.len(),
            names_unique(v@.take(j as int)),
        decreases n - j,
    {
        let mut i: usize = 0;
        while i < j
            invariant
                i <= j < n,
                n == v@.len(),
                forall|k: int| 0 <= k < i ==> (#[trigger] v@[k]).name_view() != v@[j as int].name_view(),
            decreases j - i,
        {
            if v[i].name == v[j].name {
                assert(v@[i as int].name_view() == v@[j as int].name_view());
                return false;
            }
            i += 1;
        }
        proof {
            assert forall|a: int, b: int| 0 <= a < b < j + 1 implies (#[trigger] v@.take(
                j + 1,
            )[a]).name_view() != (#[trigger] v@.take(j + 1)[b]).name_view() by {
                if b < j {
                    assert(v@.take(j as int)[a].name_view() != v@.take(j as int)[b].name_view());
                }
            }
        }
        j += 1;
    }
    proof {
        assert(v@.take(n as int) =~= v@);
    }
    true
}

impl JSONTemplateRepository {
    /// The store's invariant: no two templates share a name.
    pub open spec fn wf(&self) -> bool {
        names_unique(self.entries())
    }

    /// Makes the store that a document describes. A missing document gives
    /// the empty store; a malformed one, or one in which a name occurs
    /// twice, is corrupt.
    pub fn load(doc: Document) -> (r: Result<JSONTemplateRepository, StoreError>)
        ensures
            match doc {
                Document::Missing => r is Ok && r.unwrap().entries() == Seq::<Template>::empty(),
                Document::Malformed => r == Err::<JSONTemplateRepository, StoreError>(
                    StoreError::CorruptStore,
                ),
                Document::Records(v) => if names_unique(v@) {
                    r is Ok && r.unwrap().entries() == v@
                } else {
                    r == Err::<JSONTemplateRepository, StoreError>(StoreError::CorruptStore)
                },
            },
            r is Ok ==> r.unwrap().wf(),
    {
        match doc {
            Document::Missing => Ok(JSONTemplateRepository { templates: Vec::new() }),
            Document::Malformed => Err(StoreError::CorruptStore),
            Document::Records(v) => {
                if names_distinct(&v) {
                    Ok(JSONTemplateRepository { templates: v })
                } else {
                    Err(StoreError::CorruptStore)
                }
            },
        }
    }

    /// The position of the first template called `name`.
    fn position(&self, name: &str) -> (r: Option<usize>)
        ensures
            match r {
                Some(i) => is_first_named(self.entries(), name@, i as int),
                None => !has_name(self.entries(), name@),
            },
    {
        let n: usize = self.templates.len();
        let mut i: usize = 0;
        while i < n
            invariant
                i <= n,
                n == self.templates@.len(),
                forall|j: int| 0 <= j < i ==> (#[trigger] self.templates@[j]).name_view() != name@,
            decreases n - i,
        {
            if str_eq(self.templates[i].name.as_str(), name) {
                return Some(i);
            }
            i += 1;
        }
        None
    }
}

impl Default for JSONTemplateRepository {
    fn default() -> (r: JSONTemplateRepository)
        ensures
            r.entries() == Seq::<Template>::empty(),
            r.wf(),
    {
        JSONTemplateRepository { templates: Vec::new() }
    }
}

impl ITemaplteRepository for JSONTemplateRepository {
    closed spec fn entries(&self) -> Seq<Template> {
        self.templates@
    }

    fn get(&self, name: &str) -> (r: Option<&Template>) {
        match self.position(name) {
            Some(i) => {
                proof {
                    lemma_first_named(self.entries(), name@, i as int);
                }
                Some(&self.templates[i])
            },
            None => None,
        }
    }

    fn list(&self) -> (r: &Vec<Template>) {
        &self.templates
    }

    fn search(&self, query: &str) -> (r: Vec<&Template>) {
        let mut found: Vec<&Template> = Vec::new();
        let n: usize = self.templates.len();
        let mut i: usize = 0;
        proof {
            reveal(Seq::filter);
            assert(pointed(found@) =~= matching(self.entries().take(0), query@));
        }
        while i < n
            invariant
                i <= n,
                n == self.templates@.len(),
                pointed(found@) == matching(self.entries().take(i as int), query@),
            decreases n - i,
        {
            let t = &self.templates[i];
            let ghost before = found@;
            proof {
                reveal(Seq::filter);
                assert(self.entries().take(i + 1).drop_last() =~= self.entries().take(i as int));
                assert(self.entries().take(i + 1).last() == *t);
            }
            if t.contains(query) {
                found.push(t);
                proof {
                    assert(pointed(found@) =~= pointed(before).push(*t));
                }
            }
            i += 1;
        }
        proof {
            assert(self.entries().take(n as int) =~= self.entries());
        }
        found
    }

    fn put(&mut self, template: Template) -> (r: Result<(), StoreError>) {
        proof {
            if names_unique(self.entries()) {
                lemma_put_keeps_names_unique(self.entries(), template);
            }
        }
        match self.position(template.name.as_str()) {
            Some(i) => {
                proof {
                    lemma_first_named(self.entries(), template.name_view(), i as int);
                }
                self.templates.set(i, template);
            },
            None => {
                self.templates.push(template);
            },
        }
        Ok(())
    }
}

} // verus!
