//! The wire format of change notifications: one frame of text per change
//! event, with neither name nor identifier.

use crate::watcher::texts;
use crate::watcher::ChangeEvent;
use vstd::prelude::*;

verus! {

/// The parts with `sep` between each two neighbours.
pub open spec fn joined(parts: Seq<Seq<char>>, sep: Seq<char>) -> Seq<char>
    decreases parts.len(),
{
    if parts.len() == 0 {
        Seq::empty()
    } else if parts.len() == 1 {
        parts[0]
    } else {
        joined(parts.drop_last(), sep) + sep + parts.last()
    }
}

/// The frame for a batch of paths: `data:`, the paths with commas between
/// them, and an empty line.
pub open spec fn frame_text(paths: Seq<Seq<char>>) -> Seq<char> {
    "data:"@ + joined(paths, ","@) + "\n\n"@
}

/// The strings with `sep` between each two neighbours.
pub fn join_with(parts: &Vec<String>, sep: &str) -> (text: String)
    ensures
        text@ == joined(texts(parts@), sep@),
{
    let mut text = String::new();
    let mut i: usize = 0;
    assert(texts(parts@).take(0) =~= Seq::<Seq<char>>::empty());
    while i < parts.len()
        invariant
            i <= parts@.len(),
            text@ == joined(texts(parts@).take(i as int), sep@),
        decreases parts@.len() - i,
    {
        let ghost before = texts(parts@).take(i as int);
        let ghost now = texts(parts@).take(i + 1);
        proof {
            assert(now.drop_last() =~= before);
            assert(now.last() == parts@[i as int]@);
        }
        if i > 0 {
            text.append(sep);
        }
        text.append(parts[i].as_str());
        proof {
            if i == 0 {
                assert(text@ =~= parts@[i as int]@);
                assert(now[0] == parts@[i as int]@);
            }
        }
        i = i + 1;
    }
    assert(texts(parts@).take(parts@.len() as int) =~= texts(parts@));
    text
}

/// The frame that tells a client of one change event.
pub fn frame(event: &ChangeEvent) -> (text: String)
    ensures
        text@ == frame_text(event@),
{
    let mut text = "data:".to_owned();
    let paths = join_with(event.paths(), ",");
    text.append(paths.as_str());
    text.append("\n\n");
    text
}

} // verus!
