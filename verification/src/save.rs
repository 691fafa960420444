//! Where screenshots are kept, and under which names.

use crate::text;
use vstd::prelude::*;

verus! {

/// The directory that screenshots are kept in, as the parts of its path: under the home directory,
/// or under the working directory where no home directory is known.
pub fn screenshot_dir(home: Option<String>) -> (r: Vec<String>)
    ensures
        r@.len() == 3,
        r@[0]@ == match home {
            Some(h) => h@,
            None => "."@,
        },
        r@[1]@ == "Pictures"@,
        r@[2]@ == "Screenshots"@,
{
    let start: String = match home {
        Some(h) => h,
        None => String::from_str("."),
    };
    vec![start, String::from_str("Pictures"), String::from_str("Screenshots")]
}

/// The file name of a screenshot taken `stamp` milliseconds after the epoch.
pub open spec fn file_name(stamp: nat) -> Seq<char> {
    "Screenshot-"@ + text::decimal(stamp) + ".png"@
}

/// The file name of a screenshot taken `stamp` milliseconds after the epoch.
pub fn screenshot_name(stamp: u128) -> (r: String)
    ensures
        r@ == file_name(stamp as nat),
{
    let mut r: String = String::from_str("Screenshot-");
    let digits: String = text::write_decimal(stamp);
    r.append(digits.as_str());
    r.append(".png");
    r
}

/// Screenshots taken at different times have different names.
pub proof fn law_names_are_distinct(a: nat, b: nat)
    requires
        file_name(a) == file_name(b),
    ensures
        a == b,
{
    text::law_decimal(a);
    text::law_decimal(b);
    let (start, end) = ("Screenshot-"@, ".png"@);
    let (s, t) = (file_name(a), file_name(b));
    assert(s.len() == start.len() + text::decimal(a).len() + end.len());
    assert(t.len() == start.len() + text::decimal(b).len() + end.len());
    assert(text::decimal(a) =~= s.subrange(start.len() as int, s.len() - end.len()));
    assert(text::decimal(b) =~= t.subrange(start.len() as int, t.len() - end.len()));
}

/// The name of a screenshot is its time between a fixed beginning and the extension of the image
/// format, and the time can be read back from it.
pub proof fn law_names_hold_the_time(stamp: nat)
    ensures
        ({
            let name = file_name(stamp);
            &&& name.take(11) == "Screenshot-"@
            &&& name.skip(name.len() - 4) == ".png"@
            &&& text::number(name.subrange(11, name.len() - 4)) == stamp
        }),
{
    reveal_strlit("Screenshot-");
    reveal_strlit(".png");
    text::law_decimal(stamp);
    let name = file_name(stamp);
    assert(name.take(11) =~= "Screenshot-"@);
    assert(name.skip(name.len() - 4) =~= ".png"@);
    assert(name.subrange(11, name.len() - 4) =~= text::decimal(stamp));
}

} // verus!
