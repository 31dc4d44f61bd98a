use vstd::prelude::*;
use vstd::multiset::Multiset;
use crate::session::SessionError;

verus! {

broadcast use vstd::seq_lib::group_to_multiset_ensures;

/// Byte-wise lexicographic order; a proper prefix comes first.
pub open spec fn lex_le(a: Seq<u8>, b: Seq<u8>) -> bool
    decreases a.len(),
{
    if a.len() == 0 {
        true
    } else if b.len() == 0 {
        false
    } else if a[0] != b[0] {
        a[0] < b[0]
    } else {
        lex_le(a.drop_first(), b.drop_first())
    }
}

pub open spec fn is_separator(c: u8) -> bool {
    c == 47 || c == 92
}

/// The identifier names a file whose extension is `png`: it ends in `.png`
/// and the final path component has a non-empty stem.
pub open spec fn has_png_extension(id: Seq<u8>) -> bool {
    &&& id.len() >= 5
    &&& id[id.len() - 4] == 46
    &&& id[id.len() - 3] == 112
    &&& id[id.len() - 2] == 110
    &&& id[id.len() - 1] == 103
    &&& !is_separator(id[id.len() - 5])
}

pub open spec fn sorted_ids(s: Seq<Seq<u8>>) -> bool {
    forall|i: int, j: int| 0 <= i < j < s.len() ==> lex_le(#[trigger] s[i], #[trigger] s[j])
}

/// The frame identifiers among `ids`, in their given order.
pub open spec fn frame_ids(ids: Seq<Seq<u8>>) -> Seq<Seq<u8>> {
    ids.filter(|id: Seq<u8>| has_png_extension(id))
}

proof fn lemma_lex_total(a: Seq<u8>, b: Seq<u8>)
    ensures
        lex_le(a, b) || lex_le(b, a),
    decreases a.len(),
{
    if a.len() > 0 && b.len() > 0 && a[0] == b[0] {
        lemma_lex_total(a.drop_first(), b.drop_first());
    }
}

proof fn lemma_lex_trans(a: Seq<u8>, b: Seq<u8>, c: Seq<u8>)
    requires
        lex_le(a, b),
        lex_le(b, c),
    ensures
        lex_le(a, c),
    decreases a.len(),
{
    if a.len() > 0 && b.len() > 0 && c.len() > 0 && a[0] == b[0] && b[0] == c[0] {
        lemma_lex_trans(a.drop_first(), b.drop_first(), c.drop_first());
    }
}

proof fn lemma_lex_step(a: Seq<u8>, b: Seq<u8>, i: int)
    requires
        0 <= i < a.len(),
        i < b.len(),
        a[i] == b[i],
    ensures
        lex_le(a.skip(i), b.skip(i)) == lex_le(a.skip(i + 1), b.skip(i + 1)),
{
    assert(a.skip(i).drop_first() =~= a.skip(i + 1));
    assert(b.skip(i).drop_first() =~= b.skip(i + 1));
}

/// Compares two identifiers in lexicographic byte order.
pub fn id_le(a: &Vec<u8>, b: &Vec<u8>) -> (r: bool)
    ensures
        r == lex_le(a@, b@),
{
    let mut i: usize = 0;
    assert(a@.skip(0) =~= a@);
    assert(b@.skip(0) =~= b@);
    while i < a.len() && i < b.len()
        invariant
            i <= a@.len(),
            i <= b@.len(),
            lex_le(a@, b@) == lex_le(a@.skip(i as int), b@.skip(i as int)),
        decreases a@.len() - i,
    {
        if a[i] != b[i] {
            return a[i] < b[i];
        }
        proof {
            lemma_lex_step(a@, b@, i as int);
        }
        i = i + 1;
    }
    a.len() <= b.len()
}

/// Whether an identifier names a `png` file (see `has_png_extension`).
pub fn is_frame_id(id: &Vec<u8>) -> (r: bool)
    ensures
        r == has_png_extension(id@),
{
    let n = id.len();
    n >= 5 && id[n - 4] == 46 && id[n - 3] == 112 && id[n - 2] == 110 && id[n - 1] == 103
        && !(id[n - 5] == 47 || id[n - 5] == 92)
}

/// Orders identifiers lexicographically; the result holds the same identifiers.
pub fn sort_ids(ids: Vec<Vec<u8>>) -> (r: Vec<Vec<u8>>)
    ensures
        sorted_ids(r@.map_values(|v: Vec<u8>| v@)),
        r@.map_values(|v: Vec<u8>| v@).to_multiset() == ids@.map_values(|v: Vec<u8>| v@).to_multiset(),
{
    let ghost vw = |v: Vec<u8>| v@;
    let mut out: Vec<Vec<u8>> = Vec::new();
    let mut rest = ids;
    let ghost orig = rest@.map_values(vw);
    assert(out@.map_values(vw).to_multiset() =~= Multiset::empty());
    assert(orig.to_multiset().add(Multiset::empty()) =~= orig.to_multiset());
    while rest.len() > 0
        invariant
            orig == ids@.map_values(vw),
            vw == (|v: Vec<u8>| v@),
            sorted_ids(out@.map_values(vw)),
            out@.map_values(vw).to_multiset().add(rest@.map_values(vw).to_multiset())
                == orig.to_multiset(),
        decreases rest@.len(),
    {
        let ghost rest_before = rest@.map_values(vw);
        let x = rest.pop().unwrap();
        proof {
            assert(rest_before =~= rest@.map_values(vw).push(x@));
        }
        let ghost s = out@.map_values(vw);
        let mut p: usize = 0;
        while p < out.len() && id_le(&out[p], &x)
            invariant
                p <= out@.len(),
                s == out@.map_values(vw),
                vw == (|v: Vec<u8>| v@),
                forall|k: int| 0 <= k < p ==> lex_le(#[trigger] s[k], x@),
            decreases out@.len() - p,
        {
            p = p + 1;
        }
        proof {
            if p < out@.len() {
                lemma_lex_total(s[p as int], x@);
                assert forall|k: int| p <= k < s.len() implies lex_le(x@, #[trigger] s[k]) by {
                    if k > p {
                        lemma_lex_trans(x@, s[p as int], s[k]);
                    }
                }
            }
        }
        out.insert(p, x);
        proof {
            let t = out@.map_values(vw);
            assert(t =~= s.insert(p as int, x@));
            assert forall|i: int, j: int| 0 <= i < j < t.len() implies lex_le(
                #[trigger] t[i],
                #[trigger] t[j],
            ) by {
                if i < p && j == p {
                } else if i < p && j > p {
                    lemma_lex_trans(s[i], x@, s[j - 1]);
                } else if i == p {
                } else {
                }
            }
            assert(t.to_multiset() == s.to_multiset().insert(x@));
            assert(rest_before.to_multiset() == rest@.map_values(vw).to_multiset().insert(x@));
            assert(t.to_multiset().add(rest@.map_values(vw).to_multiset()) =~= orig.to_multiset());
        }
    }
    assert(rest@.map_values(vw).to_multiset() =~= Multiset::empty());
    assert(out@.map_values(vw).to_multiset().add(Multiset::empty()) =~= out@.map_values(vw).to_multiset());
    out
}

} // verus!

verus! {

/// A frame's locator and its position in the playback order.
#[derive(Debug)]
pub struct FrameHandle {
    pub locator: Vec<u8>,
    pub index: usize,
}

/// The locators of a sequence of handles.
pub open spec fn locators(hs: Seq<FrameHandle>) -> Seq<Seq<u8>> {
    hs.map_values(|h: FrameHandle| h.locator@)
}

/// Keeps the identifiers that name `png` files, in their given order.
pub fn select_frame_ids(ids: &Vec<Vec<u8>>) -> (r: Vec<Vec<u8>>)
    ensures
        r@.map_values(|v: Vec<u8>| v@) == frame_ids(ids@.map_values(|v: Vec<u8>| v@)),
{
    let ghost vw = |v: Vec<u8>| v@;
    let ghost all = ids@.map_values(vw);
    let ghost pred = |id: Seq<u8>| has_png_extension(id);
    let mut out: Vec<Vec<u8>> = Vec::new();
    let mut i: usize = 0;
    assert(all.take(0) =~= Seq::empty());
    assert(out@.map_values(vw) =~= all.take(0).filter(pred)) by {
        reveal(Seq::filter);
    }
    while i < ids.len()
        invariant
            i <= ids@.len(),
            vw == (|v: Vec<u8>| v@),
            all == ids@.map_values(vw),
            pred == (|id: Seq<u8>| has_png_extension(id)),
            out@.map_values(vw) == all.take(i as int).filter(pred),
        decreases ids@.len() - i,
    {
        let id = ids[i].clone();
        assert(id@ =~= ids@[i as int]@);
        let keep = is_frame_id(&id);
        proof {
            assert(all.take(i as int + 1) =~= all.take(i as int).push(id@));
            all.take(i as int).lemma_filter_push(id@, pred);
        }
        if keep {
            out.push(id);

        }
        i = i + 1;
    }
    assert(all.take(i as int) =~= all);
    out
}

/// Discovers the playback order: the `png` identifiers sorted
/// lexicographically, each with its zero-based position; `SourceEmpty` when
/// there is none.
pub fn enumerate_frames(ids: &Vec<Vec<u8>>) -> (r: Result<Vec<FrameHandle>, SessionError>)
    ensures
        r is Err <==> frame_ids(ids@.map_values(|v: Vec<u8>| v@)).len() == 0,
        r matches Err(e) ==> e == SessionError::SourceEmpty,
        r matches Ok(hs) ==> {
            &&& sorted_ids(locators(hs@))
            &&& locators(hs@).to_multiset() == frame_ids(ids@.map_values(|v: Vec<u8>| v@)).to_multiset()
            &&& forall|i: int| 0 <= i < hs@.len() ==> (#[trigger] hs@[i]).index == i
        },
{
    let selected = select_frame_ids(ids);
    if selected.len() == 0 {
        return Err(SessionError::SourceEmpty);
    }
    let sorted = sort_ids(selected);
    let ghost vw = |v: Vec<u8>| v@;
    let ghost target = sorted@.map_values(vw);
    let mut hs: Vec<FrameHandle> = Vec::new();
    let mut rest = sorted;
    let ghost n = rest@.len();
    assert(rest@.map_values(vw) =~= target.skip(0));
    while rest.len() > 0
        invariant
            vw == (|v: Vec<u8>| v@),
            n == target.len(),
            hs@.len() + rest@.len() == n,
            rest@.map_values(vw) =~= target.skip(hs@.len() as int),
            locators(hs@) =~= target.take(hs@.len() as int),
            forall|i: int| 0 <= i < hs@.len() ==> (#[trigger] hs@[i]).index == i,
        decreases rest@.len(),
    {
        let ghost old_hs = hs@;
        assert(rest@.map_values(vw)[0] == target[hs@.len() as int]);
        let locator = rest.remove(0);
        let index = hs.len();
        assert(locator@ == target[index as int]);
        hs.push(FrameHandle { locator, index });
        assert(locators(hs@) =~= locators(old_hs).push(target[index as int]));
        assert(target.skip(hs@.len() as int) =~= target.skip(index as int).drop_first());
        assert(target.take(hs@.len() as int) =~= target.take(index as int).push(target[index as int]));
    }
    assert(target.take(n as int) =~= target);
    Ok(hs)
}

} // verus!
