//! The pictures of a loop, decoded for its encoder.

use crate::tiles::manager::{decode_rgba, decoded};
use vstd::prelude::*;

verus! {

/// A picture: its width, its height and its pixels, four bytes each.
pub type PictureText = (u32, u32, Seq<u8>);

/// The pictures as numbers.
pub open spec fn picture_texts(v: Seq<(u32, u32, Vec<u8>)>) -> Seq<PictureText> {
    v.map_values(|p: (u32, u32, Vec<u8>)| (p.0, p.1, p.2@))
}

/// The pictures among these files that can be read, in order.
pub open spec fn readable_in(files: Seq<Vec<u8>>) -> Seq<PictureText>
    decreases files.len(),
{
    if files.len() == 0 {
        Seq::empty()
    } else {
        let rest = readable_in(files.drop_last());
        match decoded(files.last()@) {
            Some(p) => rest.push(p),
            None => rest,
        }
    }
}

/// Every one of these files is a picture.
pub open spec fn all_readable(files: Seq<Vec<u8>>) -> bool {
    forall|i: int| 0 <= i < files.len() ==> decoded((#[trigger] files[i])@) is Some
}

/// The frames of a radar loop, decoded. Each was rendered for it, so one that cannot be read fails
/// the loop.
pub fn loop_pictures(pngs: &Vec<Vec<u8>>) -> (r: Option<Vec<(u32, u32, Vec<u8>)>>)
    ensures
        r is Some <==> all_readable(pngs@),
        r matches Some(v) ==> {
            &&& v@.len() == pngs@.len()
            &&& forall|i: int|
                0 <= i < v@.len() ==> decoded(pngs@[i]@) == Some(#[trigger] picture_texts(v@)[i])
        },
{
    let mut out: Vec<(u32, u32, Vec<u8>)> = Vec::new();
    let mut i: usize = 0;
    while i < pngs.len()
        invariant
            i <= pngs.len(),
            out@.len() == i,
            forall|j: int| 0 <= j < i ==> decoded((#[trigger] pngs@[j])@) is Some,
            forall|j: int|
                0 <= j < i ==> decoded(pngs@[j]@) == Some(#[trigger] picture_texts(out@)[j]),
        decreases pngs.len() - i,
    {
        let ghost before = picture_texts(out@);
        match decode_rgba(pngs[i].as_slice()) {
            Some(p) => {
                let ghost here = (p.0, p.1, p.2@);
                out.push(p);
                assert(picture_texts(out@) =~= before.push(here));
            },
            None => {
                assert(decoded(pngs@[i as int]@) is None);
                return None;
            },
        }
        i = i + 1;
    }
    Some(out)
}

/// The frames of the national loop, decoded. They lie in a ring that is written all the time, so
/// one that cannot be read is left out.
pub fn readable_pictures(pngs: &Vec<Vec<u8>>) -> (r: Vec<(u32, u32, Vec<u8>)>)
    ensures
        picture_texts(r@) == readable_in(pngs@),
{
    let mut out: Vec<(u32, u32, Vec<u8>)> = Vec::new();
    let mut i: usize = 0;
    assert(picture_texts(out@) =~= readable_in(pngs@.take(0)));
    while i < pngs.len()
        invariant
            i <= pngs.len(),
            picture_texts(out@) == readable_in(pngs@.take(i as int)),
        decreases pngs.len() - i,
    {
        let ghost before = picture_texts(out@);
        proof {
            assert(pngs@.take(i + 1).drop_last() =~= pngs@.take(i as int));
            assert(pngs@.take(i + 1).last() == pngs@[i as int]);
        }
        if let Some(p) = decode_rgba(pngs[i].as_slice()) {
            let ghost here = (p.0, p.1, p.2@);
            out.push(p);
            assert(picture_texts(out@) =~= before.push(here));
        }
        i = i + 1;
    }
    assert(pngs@.take(pngs@.len() as int) =~= pngs@);
    out
}

/// A file that is a picture is in the loop, one that is none is left out, and they stay in order.
pub proof fn readable_pictures_stay_in_order(a: Seq<Vec<u8>>, b: Seq<Vec<u8>>)
    ensures
        a.len() == 0 ==> readable_in(a) == Seq::<PictureText>::empty(),
        a.len() == 1 && decoded(a[0]@) is Some ==> readable_in(a) == seq![decoded(a[0]@)->0],
        a.len() == 1 && decoded(a[0]@) is None ==> readable_in(a) == Seq::<PictureText>::empty(),
        readable_in(a + b) == readable_in(a) + readable_in(b),
    decreases b.len(),
{
    if a.len() == 1 {
        assert(a.drop_last() =~= Seq::<Vec<u8>>::empty());
        assert(readable_in(a.drop_last()) == Seq::<PictureText>::empty());
        if decoded(a[0]@) is Some {
            assert(Seq::<PictureText>::empty().push(decoded(a[0]@)->0) =~= seq![decoded(a[0]@)->0]);
        }
    }
    if b.len() == 0 {
        assert(a + b =~= a);
        assert(readable_in(a + b) =~= readable_in(a) + readable_in(b));
    } else {
        assert((a + b).drop_last() =~= a + b.drop_last());
        assert((a + b).last() == b.last());
        readable_pictures_stay_in_order(a, b.drop_last());
        assert(readable_in(a + b) =~= readable_in(a) + readable_in(b));
    }
}

} // verus!
