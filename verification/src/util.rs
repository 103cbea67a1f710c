//! Home directory handling.
use vstd::prelude::*;
use crate::text::{chars_of, owned, string_of_range};

verus! {

/// The home directory: the value of `HOME`, or empty where it is unset.
pub fn home_dir(home: Option<&str>) -> (r: String)
    ensures
        r@ == match home {
            Some(h) => h@,
            None => Seq::<char>::empty(),
        },
{
    match home {
        Some(h) => owned(h),
        None => String::new(),
    }
}

/// `p` with a leading `~` replaced by the home directory `home`.
pub open spec fn expand_tilde_spec(p: Seq<char>, home: Seq<char>) -> Seq<char> {
    if p.len() > 0 && p[0] == '~' {
        home + p.drop_first()
    } else {
        p
    }
}

/// `p` with a leading `~` replaced by the home directory `home`; any other
/// path is left as it is.
pub fn expand_tilde(p: &str, home: &str) -> (r: String)
    ensures
        r@ == expand_tilde_spec(p@, home@),
{
    let v = chars_of(p);
    if v.len() > 0 && v[0] == '~' {
        let mut r = owned(home);
        let rest = string_of_range(&v, 1, v.len());
        assert(v@.subrange(1, v.len() as int) == v@.drop_first());
        r.append(rest.as_str());
        r
    } else {
        owned(p)
    }
}

} // verus!
