//! Fonts added at run time.
//!
//! Fonts that an application adds after start-up are kept in a store and
//! handed to text layout from the next frame on. The store never forgets a
//! font: off-screen rendering builds its own layout from the same list, so
//! fonts must stay available after the runtime has picked them up. A font
//! with no bytes is ignored.

use vstd::prelude::*;

verus! {

/// The fonts added so far, oldest first.
pub struct FontStore {
    fonts: Vec<Vec<u8>>,
}

impl View for FontStore {
    type V = Seq<Seq<u8>>;

    closed spec fn view(&self) -> Seq<Seq<u8>> {
        self.fonts@.map_values(|f: Vec<u8>| f@)
    }
}

/// `fonts` as byte sequences.
pub open spec fn bytes_of(fonts: Seq<Vec<u8>>) -> Seq<Seq<u8>> {
    fonts.map_values(|f: Vec<u8>| f@)
}

impl FontStore {
    /// An empty store.
    pub fn new() -> (s: Self)
        ensures
            s@ == Seq::<Seq<u8>>::empty(),
    {
        let s = FontStore { fonts: Vec::new() };
        assert(s@ =~= Seq::<Seq<u8>>::empty());
        s
    }

    /// Every font in the store is non-empty.
    pub open spec fn wf(&self) -> bool {
        forall|i: int| 0 <= i < self@.len() ==> #[trigger] self@[i].len() > 0
    }
}

/// Adds a font (TTF / OTF bytes). Empty data is ignored; anything else goes
/// to the end of the list, after every font added before it.
pub fn add(store: &mut FontStore, data: Vec<u8>)
    ensures
        data@.len() == 0 ==> final(store)@ == old(store)@,
        data@.len() > 0 ==> final(store)@ == old(store)@.push(data@),
        old(store).wf() ==> final(store).wf(),
{
    if data.len() == 0 {
        return;
    }
    let ghost d = data@;
    store.fonts.push(data);
    assert(store@ =~= old(store)@.push(d));
}

/// How many fonts have been added.
pub fn count(store: &FontStore) -> (n: usize)
    ensures
        n == store@.len(),
{
    store.fonts.len()
}

/// Every font added so far, oldest first.
pub fn all(store: &FontStore) -> (fonts: Vec<Vec<u8>>)
    ensures
        bytes_of(fonts@) == store@,
{
    since(store, 0)
}

/// The fonts added after the first `applied` ones (what a runtime that has
/// already taken `applied` fonts still lacks). Empty when `applied` is not
/// below the count.
pub fn since(store: &FontStore, applied: usize) -> (fonts: Vec<Vec<u8>>)
    ensures
        applied < store@.len() ==> bytes_of(fonts@) == store@.subrange(applied as int, store@.len() as int),
        applied >= store@.len() ==> fonts@.len() == 0,
{
    let n = store.fonts.len();
    let mut out: Vec<Vec<u8>> = Vec::new();
    if applied >= n {
        return out;
    }
    let mut i = applied;
    while i < n
        invariant
            applied <= i <= n,
            n == store.fonts@.len(),
            bytes_of(out@) =~= store@.subrange(applied as int, i as int),
        decreases n - i,
    {
        let f = store.fonts[i].clone();
        assert(f@ =~= store.fonts@[i as int]@);
        let ghost prev = out@;
        out.push(f);
        proof {
            assert(out@ =~= prev.push(f));
            assert(bytes_of(out@) =~= bytes_of(prev).push(f@));
            assert(store@[i as int] == store.fonts@[i as int]@);
        }
        i += 1;
    }
    out
}

/// Fonts added later stay available: adding a font never removes or changes
/// the ones before it, and what `since` hands over from a count is exactly
/// the fonts added after that count.
pub proof fn lemma_added_fonts_stay(before: Seq<Seq<u8>>, data: Seq<u8>)
    requires
        data.len() > 0,
    ensures
        before.push(data).subrange(0, before.len() as int) == before,
        before.push(data).subrange(before.len() as int, (before.len() + 1) as int) == seq![data],
{
    assert(before.push(data).subrange(0, before.len() as int) =~= before);
    assert(before.push(data).subrange(before.len() as int, (before.len() + 1) as int) =~= seq![data]);
}

} // verus!
