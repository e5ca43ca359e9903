//! The short forms in which a repository may be named.

use crate::text::{
    all_hex_digits, contains, is_hex, is_infix, is_prefix, split, split_on, starts_with,
};
use vstd::prelude::*;
use vstd::string::*;

verus! {

/// A reference that is taken for a commit: seven characters or more, all of
/// them hexadecimal digits.
pub open spec fn looks_like_commit(reference: Seq<char>) -> bool {
    reference.len() >= 7 && all_hex_digits(reference)
}

/// The full URL that a repository reference stands for.
///
/// A reference that begins with `http://` or `https://` stands for itself.
/// One of the form `owner/repo` stands for that repository on github.com;
/// with `@` and a reference after it, for the commit of that name if the
/// reference looks like a commit, and for the branch of that name
/// otherwise. What stands after a second `@` is ignored. Every other
/// reference stands for itself.
pub open spec fn expanded(url: Seq<char>) -> Seq<char> {
    let parts = split_on(url, '@');
    let repository = parts[0];
    if is_prefix(url, "http://"@) || is_prefix(url, "https://"@) {
        url
    } else if is_infix(url, "/"@) && split_on(repository, '/').len() == 2 {
        if parts.len() < 2 {
            "https://github.com/"@ + repository
        } else if looks_like_commit(parts[1]) {
            "https://github.com/"@ + repository + "/commit/"@ + parts[1]
        } else {
            "https://github.com/"@ + repository + "/tree/"@ + parts[1]
        }
    } else {
        url
    }
}

/// The full URL that a repository reference stands for.
pub fn expand_url(url: &str) -> (full: String)
    ensures
        full@ == expanded(url@),
{
    if starts_with(url, "http://") || starts_with(url, "https://") {
        return url.to_string();
    }
    if contains(url, "/") {
        let parts = split(url, '@');
        let path_parts = split(parts[0].as_str(), '/');
        if path_parts.len() == 2 {
            let mut full = "https://github.com/".to_string();
            full.append(parts[0].as_str());
            if parts.len() >= 2 {
                let reference = parts[1].as_str();
                if reference.unicode_len() >= 7 && is_hex(reference) {
                    full.append("/commit/");
                } else {
                    full.append("/tree/");
                }
                full.append(reference);
            }
            return full;
        }
    }
    url.to_string()
}

} // verus!
