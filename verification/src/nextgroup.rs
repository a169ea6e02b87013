//! Moving on to the next group of pictures: the "From" and "To" fields are
//! checked first; the directory is then probed by the caller, and what was
//! found decides the bounds of the following group of the same size.
use vstd::prelude::*;
use vstd::string::*;
use crate::number::{i32_value, parse_i32, lemma_parse_rendered};
use crate::text::{decimal, signed_decimal, format_i32, format_u64};

verus! {

/// What a field reads as: its `i32` value, or -99 where it does not read as
/// one (so that the text "-99" and an unreadable text are taken alike).
pub open spec fn value_or_marker(s: Seq<char>) -> int {
    match i32_value(s) {
        Some(v) => v,
        None => -99,
    }
}

/// The outcome of checking the "From" and "To" fields: the two bounds, or the
/// error code and message.
pub open spec fn range_check(f: Seq<char>, t: Seq<char>) -> Result<(int, int), (u32, Seq<char>)> {
    if f.len() == 0 {
        Err((1u32, "********* List: From has no value **********"@))
    } else if value_or_marker(f) <= 0 {
        if value_or_marker(f) == -99 {
            Err((2u32, "********* List: From is not an integer **********"@))
        } else {
            Err((3u32, "********* List: From not positive integer **********"@))
        }
    } else if t.len() == 0 {
        Err((4u32, "********* List: To has no value **********"@))
    } else if value_or_marker(t) <= 0 {
        if value_or_marker(t) == -99 {
            Err((5u32, "********* List: To is not an integer **********"@))
        } else {
            Err((6u32, "********* List: To not positive integer **********"@))
        }
    } else if value_or_marker(t) < value_or_marker(f) {
        Err((7u32, "********* List: From Greater than To **********"@))
    } else {
        Ok((value_or_marker(f), value_or_marker(t)))
    }
}

/// The answer to the "From"/"To" check.
pub enum NextPress {
    /// The fields were refused, with this error code and message.
    Rejected(u32, String),
    /// The fields hold this range, `1 <= from <= to`; the directory is next.
    Accepted(i32, i32),
}

/// The text of the "no such directory" message.
pub open spec fn missing_dir_message() -> Seq<char> {
    "the directory does not exist"@
}

/// The message when the next group would start past the last picture.
pub open spec fn past_end_message(from: int, count: nat) -> Seq<char> {
    "********* List: From "@ + signed_decimal(from) + " Greater than number of files of "@
        + decimal(count) + " **********"@
}

/// The outcome of the second step, from the current range and from what the
/// directory probe found: nothing (no such directory), or the code, message
/// and number of pictures of the listing.
pub open spec fn group_outcome(from: int, to: int, listing: Option<(u32, Seq<char>, nat)>) -> (
    u32,
    Seq<char>,
    Seq<char>,
    Seq<char>,
) {
    match listing {
        None => (8u32, missing_dir_message(), " "@, " "@),
        Some((code, msg, count)) => if code == 0 {
            if count < to + 1 {
                (9u32, past_end_message(to + 1, count), " "@, " "@)
            } else {
                (0u32, " "@, signed_decimal(to + 1), signed_decimal(2 * to - from + 1))
            }
        } else {
            (10u32, msg, " "@, " "@)
        },
    }
}

fn field_value(s: &str) -> (v: i32)
    ensures
        v == value_or_marker(s@),
{
    match parse_i32(s) {
        Some(v) => v,
        None => -99,
    }
}

/// First step of "Next Group": checks the "From" and "To" texts. Either field
/// may be refused; otherwise the range they hold is handed back.
pub fn nextpressi(fromtxt: String, totxt: String) -> (r: NextPress)
    ensures
        r matches NextPress::Accepted(f, t) ==> range_check(fromtxt@, totxt@) == Ok::<(int, int), (u32, Seq<char>)>((f as int, t as int)),
        r matches NextPress::Rejected(c, m) ==> range_check(fromtxt@, totxt@) == Err::<(int, int), (u32, Seq<char>)>((c, m@)),
{
    if fromtxt.as_str().unicode_len() == 0 {
        return NextPress::Rejected(1, String::from_str("********* List: From has no value **********"));
    }
    let from_int = field_value(fromtxt.as_str());
    if from_int <= 0 {
        if from_int == -99 {
            return NextPress::Rejected(2, String::from_str("********* List: From is not an integer **********"));
        } else {
            return NextPress::Rejected(3, String::from_str("********* List: From not positive integer **********"));
        }
    }
    if totxt.as_str().unicode_len() == 0 {
        return NextPress::Rejected(4, String::from_str("********* List: To has no value **********"));
    }
    let to_int = field_value(totxt.as_str());
    if to_int <= 0 {
        if to_int == -99 {
            return NextPress::Rejected(5, String::from_str("********* List: To is not an integer **********"));
        } else {
            return NextPress::Rejected(6, String::from_str("********* List: To not positive integer **********"));
        }
    }
    if to_int < from_int {
        return NextPress::Rejected(7, String::from_str("********* List: From Greater than To **********"));
    }
    NextPress::Accepted(from_int, to_int)
}

/// The plain view of a directory listing: code, message, number of pictures.
pub open spec fn listing_view(listing: Option<(u32, String, Vec<String>)>) -> Option<(u32, Seq<char>, nat)> {
    match listing {
        None => None,
        Some((c, m, names)) => Some((c, m@, names.len() as nat)),
    }
}

/// Second step of "Next Group": from the accepted range and what the
/// directory probe found (`None` where the directory does not exist,
/// otherwise its picture listing), the error code, message, and the "From"
/// and "To" texts of the next group.
pub fn next_group(from: i32, to: i32, listing: Option<(u32, String, Vec<String>)>) -> (r: (
    u32,
    String,
    String,
    String,
))
    requires
        1 <= from <= to,
        listing is Some ==> to < i32::MAX,
        (listing matches Some((0, _, names)) && names.len() >= to + 1) ==> 2 * to <= i32::MAX,
    ensures
        (r.0, r.1@, r.2@, r.3@) == group_outcome(from as int, to as int, listing_view(listing)),
{
    match listing {
        None => (8, String::from_str("the directory does not exist"), String::from_str(" "), String::from_str(" ")),
        Some((errcd, errstr, liststr)) => {
            if errcd == 0 {
                let new_from = to + 1;
                let count = liststr.len();
                if count < new_from as usize {
                    let mut msg = String::from_str("********* List: From ");
                    let f = format_i32(new_from);
                    msg.append(f.as_str());
                    msg.append(" Greater than number of files of ");
                    let c = format_u64(count as u64);
                    msg.append(c.as_str());
                    msg.append(" **********");
                    assert(msg@ =~= past_end_message(new_from as int, count as nat));
                    (9, msg, String::from_str(" "), String::from_str(" "))
                } else {
                    let new_to = to + to - from + 1;
                    (0, String::from_str(" "), format_i32(new_from), format_i32(new_to))
                }
            } else {
                (10, errstr, String::from_str(" "), String::from_str(" "))
            }
        },
    }
}

/// Pressing "Next Group" again continues where the last press ended: when a
/// press succeeds, the texts it hands back pass the field check as the range
/// that starts right after the old one and is as wide as it.
pub proof fn lemma_next_group_chains(from: i32, to: i32, listing: Option<(u32, Seq<char>, nat)>)
    requires
        1 <= from <= to < i32::MAX,
        2 * to <= i32::MAX,
        group_outcome(from as int, to as int, listing).0 == 0,
    ensures
        range_check(
            group_outcome(from as int, to as int, listing).2,
            group_outcome(from as int, to as int, listing).3,
        ) == Ok::<(int, int), (u32, Seq<char>)>((to + 1, 2 * to - from + 1)),
        (2 * to - from + 1) - (to + 1) == to - from,
{
    let nf: i32 = (to + 1) as i32;
    let nt: i32 = (2 * to - from + 1) as i32;
    lemma_parse_rendered(nf);
    lemma_parse_rendered(nt);
    crate::number::lemma_decimal_digits((to + 1) as nat);
    crate::number::lemma_decimal_digits((2 * to - from + 1) as nat);
}

} // verus!

verus! {

/// With a readable listing of `count` pictures, "Next Group" from the range
/// `from..to` succeeds exactly when the picture after `to` exists
/// (`to + 1 <= count`), whatever `from` is; it then hands back the texts of
/// `to + 1` and `2 * to - from + 1`, a group as wide as the old one, and
/// otherwise refuses with code 9.
pub proof fn lemma_next_group_needs_only_the_next_picture(from: int, to: int, msg: Seq<char>, count: nat)
    requires
        1 <= from <= to,
    ensures
        (group_outcome(from, to, Some((0u32, msg, count))).0 == 0) <==> to + 1 <= count,
        count < to + 1 ==> group_outcome(from, to, Some((0u32, msg, count))).0 == 9,
        to + 1 <= count ==> {
            &&& group_outcome(from, to, Some((0u32, msg, count))).2 == decimal((to + 1) as nat)
            &&& group_outcome(from, to, Some((0u32, msg, count))).3 == decimal((2 * to - from + 1) as nat)
            &&& (2 * to - from + 1) - (to + 1) == to - from
        },
{
}

} // verus!
