use vstd::prelude::*;

verus! {

/// A foreground colour: one red, green and blue byte.
#[derive(Clone, Copy, Debug, PartialEq, Eq, Structural)]
pub struct Color {
    pub r: u8,
    pub g: u8,
    pub b: u8,
}

/// A run as contracts see it: its characters and its colour.
pub type RunModel = (Seq<char>, Color);

/// The runs of a vector, each text taken by its characters.
pub open spec fn runs_of(v: Seq<(String, Color)>) -> Seq<RunModel> {
    v.map_values(|p: (String, Color)| (p.0@, p.1))
}

/// The texts of the runs, one after another.
pub open spec fn joined(runs: Seq<RunModel>) -> Seq<char>
    decreases runs.len(),
{
    if runs.len() == 0 {
        Seq::empty()
    } else {
        joined(runs.drop_last()) + runs.last().0
    }
}

/// Joining two run sequences laid end to end joins their texts end to end.
pub proof fn lemma_joined_concat(a: Seq<RunModel>, b: Seq<RunModel>)
    ensures
        joined(a + b) == joined(a) + joined(b),
    decreases b.len(),
{
    if b.len() == 0 {
        assert(a + b =~= a);
        assert(joined(a) + joined(b) =~= joined(a));
    } else {
        lemma_joined_concat(a, b.drop_last());
        assert((a + b).drop_last() =~= a + b.drop_last());
        assert((a + b).last() == b.last());
        assert(joined(a + b) =~= joined(a) + joined(b));
    }
}

} // verus!
