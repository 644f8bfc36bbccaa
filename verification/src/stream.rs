//! The output of a program as one stream of bytes, however it is cut into chunks.
use vstd::prelude::*;

verus! {

/// The bytes of a list of chunks, in order.
pub open spec fn joined(chunks: Seq<Seq<u8>>) -> Seq<u8>
    decreases chunks.len(),
{
    if chunks.len() == 0 {
        Seq::empty()
    } else {
        joined(chunks.drop_last()) + chunks.last()
    }
}

/// How many bytes a character takes in UTF-8 that starts with this one.
pub open spec fn char_bytes(first: u8) -> int {
    if first >= 0xf0 {
        4
    } else if first >= 0xe0 {
        3
    } else if first >= 0xc0 {
        2
    } else {
        1
    }
}

/// Whether a stream stops inside a character: its last bytes start one in UTF-8 and
/// go on with it, but there are too few.
pub open spec fn inside_char(stream: Seq<u8>) -> bool {
    exists|first: int|
        0 <= first < stream.len() && stream.len() - first < char_bytes(#[trigger] stream[first])
            && (forall|i: int| first < i < stream.len() ==> 0x80 <= #[trigger] stream[i] <= 0xbf)
}

/// Whether a device control string may start with the byte at `at`: that byte is DCS
/// itself, or the `P` of `ESC P`, with nothing printable in between.
pub open spec fn opens_control_string(stream: Seq<u8>, at: int) -> bool {
    ||| stream[at] == 0x90
    ||| stream[at] == 0x50 && exists|escape: int|
        0 <= escape < at && #[trigger] stream[escape] == 0x1b && (forall|i: int|
            escape < i < at ==> !(0x20 <= #[trigger] stream[i] <= 0x7e))
}

/// Whether a stream may ask for the control mode of `tmux`, as `DCS 1000 p` does: it
/// has a device control string whose final byte is `p`.
pub open spec fn asks_control_mode(stream: Seq<u8>) -> bool {
    exists|start: int, last: int|
        0 <= start < last < stream.len() && #[trigger] opens_control_string(stream, start)
            && #[trigger] stream[last] == 0x70 && (forall|i: int|
            start < i < last ==> !(0x40 <= #[trigger] stream[i] <= 0x7e))
}

pub proof fn lemma_joined_concat(first: Seq<Seq<u8>>, second: Seq<Seq<u8>>)
    ensures
        joined(first + second) == joined(first) + joined(second),
    decreases second.len(),
{
    if second.len() == 0 {
        assert(first + second =~= first);
        assert(joined(first) + joined(second) =~= joined(first));
    } else {
        assert((first + second).drop_last() =~= first + second.drop_last());
        lemma_joined_concat(first, second.drop_last());
        assert(joined(first + second) =~= joined(first) + joined(second));
    }
}

pub proof fn lemma_control_mode_stays_asked(stream: Seq<u8>, more: Seq<u8>)
    requires
        asks_control_mode(stream),
    ensures
        asks_control_mode(stream + more),
{
    let all = stream + more;
    let (start, last) = choose|start: int, last: int|
        0 <= start < last < stream.len() && #[trigger] opens_control_string(stream, start)
            && #[trigger] stream[last] == 0x70 && (forall|i: int|
            start < i < last ==> !(0x40 <= #[trigger] stream[i] <= 0x7e));
    assert(forall|i: int| 0 <= i < stream.len() ==> #[trigger] all[i] == stream[i]);
    if stream[start] != 0x90 {
        let escape = choose|escape: int|
            0 <= escape < start && #[trigger] stream[escape] == 0x1b && (forall|i: int|
                escape < i < start ==> !(0x20 <= #[trigger] stream[i] <= 0x7e));
        assert(all[escape] == 0x1b);
    }
    assert(opens_control_string(all, start));
    assert(all[last] == 0x70);
}

} // verus!
