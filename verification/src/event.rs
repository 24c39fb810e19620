//! The parts of an incoming chat message that the plugins read.
use vstd::prelude::*;
use crate::text::{text_eq, parse_i64, parse_i32, parse_i64_spec, parse_i32_spec};

verus! {

/// One segment of a rich message: its type (`"text"`, `"at"`, `"reply"`, ...)
/// and those of its data fields whose values are strings.
pub struct Segment {
    pub kind: String,
    pub data: Vec<(String, String)>,
}

/// A message event as the plugins see it.
pub struct ChatEvent {
    /// The bot's own account.
    pub self_id: i64,
    /// The sender's account.
    pub user_id: i64,
    /// The group the message was sent in, if any.
    pub group_id: Option<i64>,
    /// The plain text of the message, if it has any.
    pub text: Option<String>,
    /// The segments of the message, in order.
    pub message: Vec<Segment>,
}

/// The value of the first data field named `key`.
pub open spec fn field_value(data: Seq<(String, String)>, key: Seq<char>) -> Option<Seq<char>>
    decreases data.len(),
{
    if data.len() == 0 {
        None
    } else if data[0].0@ == key {
        Some(data[0].1@)
    } else {
        field_value(data.drop_first(), key)
    }
}

/// The field `key` of a segment of type `kind`.
pub open spec fn segment_field(seg: Segment, kind: Seq<char>, key: Seq<char>) -> Option<
    Seq<char>,
> {
    if seg.kind@ == kind {
        field_value(seg.data@, key)
    } else {
        None
    }
}

/// For each segment of type `kind` in order, field `key` read as an `i64`,
/// skipping segments where it is missing or is no `i64` numeral.
pub open spec fn segment_i64s(segs: Seq<Segment>, kind: Seq<char>, key: Seq<char>) -> Seq<i64>
    decreases segs.len(),
{
    if segs.len() == 0 {
        seq![]
    } else {
        let rest = segment_i64s(segs.drop_last(), kind, key);
        match segment_field(segs.last(), kind, key) {
            Some(t) => match parse_i64_spec(t) {
                Some(x) => rest.push(x as i64),
                None => rest,
            },
            None => rest,
        }
    }
}

/// The first segment of type `kind` whose field `key` reads as an `i32`.
pub open spec fn first_segment_i32(segs: Seq<Segment>, kind: Seq<char>, key: Seq<char>) -> Option<
    i32,
>
    decreases segs.len(),
{
    if segs.len() == 0 {
        None
    } else {
        match segment_field(segs[0], kind, key) {
            Some(t) => match parse_i32_spec(t) {
                Some(x) => Some(x as i32),
                None => first_segment_i32(segs.drop_first(), kind, key),
            },
            None => first_segment_i32(segs.drop_first(), kind, key),
        }
    }
}

/// Position of the first data field named `key`.
fn find_field(data: &Vec<(String, String)>, key: &str) -> (r: Option<usize>)
    ensures
        match r {
            Some(i) => i < data@.len() && field_value(data@, key@) == Some(data@[i as int].1@),
            None => field_value(data@, key@) is None,
        },
{
    let n = data.len();
    let mut i: usize = 0;
    assert(data@.skip(0) =~= data@);
    while i < n
        invariant
            n == data@.len(),
            i <= n,
            field_value(data@, key@) == field_value(data@.skip(i as int), key@),
        decreases n - i,
    {
        assert(data@.skip(i as int).drop_first() =~= data@.skip(i + 1));
        if text_eq(data[i].0.as_str(), key) {
            return Some(i);
        }
        i = i + 1;
    }
    None
}

/// Field `key` of `seg` when `seg` has type `kind`.
fn segment_field_exec<'a>(seg: &'a Segment, kind: &str, key: &str) -> (r: Option<&'a String>)
    ensures
        match r {
            Some(t) => segment_field(*seg, kind@, key@) == Some(t@),
            None => segment_field(*seg, kind@, key@) is None,
        },
{
    if !text_eq(seg.kind.as_str(), kind) {
        return None;
    }
    match find_field(&seg.data, key) {
        Some(i) => Some(&seg.data[i].1),
        None => None,
    }
}

/// Field `key` of each segment of type `kind`, read as `i64` numbers.
pub fn collect_segment_i64s(segs: &Vec<Segment>, kind: &str, key: &str) -> (r: Vec<i64>)
    ensures
        r@ == segment_i64s(segs@, kind@, key@),
{
    let n = segs.len();
    let mut out: Vec<i64> = Vec::new();
    let mut i: usize = 0;
    while i < n
        invariant
            n == segs@.len(),
            i <= n,
            out@ == segment_i64s(segs@.take(i as int), kind@, key@),
        decreases n - i,
    {
        assert(segs@.take(i + 1).drop_last() =~= segs@.take(i as int));
        assert(segs@.take(i + 1).last() == segs@[i as int]);
        match segment_field_exec(&segs[i], kind, key) {
            Some(t) => match parse_i64(t.as_str()) {
                Some(x) => {
                    out.push(x);
                },
                None => {},
            },
            None => {},
        }
        i = i + 1;
    }
    assert(segs@.take(n as int) =~= segs@);
    out
}

/// The first segment of type `kind` whose field `key` reads as an `i32`.
pub fn first_segment_i32_exec(segs: &Vec<Segment>, kind: &str, key: &str) -> (r: Option<i32>)
    ensures
        r == first_segment_i32(segs@, kind@, key@),
{
    let n = segs.len();
    let mut i: usize = 0;
    assert(segs@.skip(0) =~= segs@);
    while i < n
        invariant
            n == segs@.len(),
            i <= n,
            first_segment_i32(segs@, kind@, key@) == first_segment_i32(
                segs@.skip(i as int),
                kind@,
                key@,
            ),
        decreases n - i,
    {
        assert(segs@.skip(i as int).drop_first() =~= segs@.skip(i + 1));
        assert(segs@.skip(i as int)[0] == segs@[i as int]);
        match segment_field_exec(&segs[i], kind, key) {
            Some(t) => match parse_i32(t.as_str()) {
                Some(x) => {
                    return Some(x);
                },
                None => {},
            },
            None => {},
        }
        i = i + 1;
    }
    None
}

} // verus!
