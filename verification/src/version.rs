//! The version that the program tells.
use vstd::prelude::*;
use vstd::string::*;
use crate::text::{chars_of, has_prefix, opt_view, starts_with, string_of, trim, trimmed};

verus! {

/// The version of a release tag, without its prefix; unreleased where there is no such tag.
pub open spec fn release_of(tag: Option<Seq<char>>) -> Seq<char> {
    match tag {
        Some(t) => if has_prefix(t, "uw-v"@) {
            t.skip(4)
        } else {
            "unreleased"@
        },
        None => "unreleased"@,
    }
}

/// The version of a release tag.
pub fn underware_version(tag: &Option<String>) -> (r: String)
    ensures
        r@ == release_of(opt_view(*tag)),
{
    match tag {
        Some(t) => if starts_with(t, "uw-v") {
            let cs = chars_of(t);
            proof {
                reveal_strlit("uw-v");
            }
            let r = string_of(&cs, 4, cs.len());
            proof {
                assert(r@ =~= t@.skip(4));
            }
            r
        } else {
            "unreleased".to_owned()
        },
        None => "unreleased".to_owned(),
    }
}

/// What a command of git printed, without the white space around it; nothing where that is empty.
pub fn git_value(output: &str) -> (r: Option<String>)
    ensures
        opt_view(r) == (if trim(output@).len() == 0 {
            None
        } else {
            Some(trim(output@))
        }),
{
    let t = trimmed(output);
    if t.as_str().is_empty() {
        None
    } else {
        Some(t)
    }
}

/// The version that the program tells: that of the release, where it is given, or else of the tag;
/// that it is built on; and the commit, where it is known.
pub open spec fn version_told(
    release: Option<Seq<char>>,
    tag: Option<Seq<char>>,
    base: Seq<char>,
    commit: Option<Seq<char>>,
) -> Seq<char> {
    let version = match release {
        Some(v) => v,
        None => release_of(tag),
    };
    let sha = match commit {
        Some(c) => c,
        None => "unknown"@,
    };
    version + "-uw (base torii v"@ + base + ", "@ + sha + ")"@
}

/// The version that the program tells.
pub fn version_spec(
    release: &Option<String>,
    tag: &Option<String>,
    base: &str,
    commit: &Option<String>,
) -> (r: String)
    ensures
        r@ == version_told(opt_view(*release), opt_view(*tag), base@, opt_view(*commit)),
{
    let mut out = match release {
        Some(v) => v.clone(),
        None => underware_version(tag),
    };
    out.append("-uw (base torii v");
    out.append(base);
    out.append(", ");
    match commit {
        Some(c) => {
            out.append(c.as_str());
        },
        None => {
            out.append("unknown");
        },
    }
    out.append(")");
    out
}

} // verus!
