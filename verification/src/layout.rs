//! File-type icons keyed by a file name's extension.

use vstd::prelude::*;
use crate::text::{spec_rfind_char, rfind_char, subvec, to_chars};

verus! {

/// The extension of a file name: the text after the last dot, provided the
/// dot is neither the first character nor absent; otherwise empty.
pub open spec fn spec_extension(name: Seq<char>) -> Seq<char> {
    let base = match spec_rfind_char(name, '/') {
        Some(k) => name.skip(k + 1),
        None => name,
    };
    match spec_rfind_char(base, '.') {
        Some(k) => if k > 0 {
            base.skip(k + 1)
        } else {
            Seq::empty()
        },
        None => Seq::empty(),
    }
}

/// The extension of a file name (`spec_extension`), exactly.
pub fn extension_of(name: &str) -> (r: Vec<char>)
    ensures
        r@ == spec_extension(name@),
{
    let chars = to_chars(name);
    let base = match rfind_char(&chars, '/') {
        Some(k) => {
            proof {
                crate::text::lemma_rfind_char_bounds(chars@, '/');
            }
            subvec(&chars, k + 1, chars.len())
        },
        None => chars,
    };
    match rfind_char(&base, '.') {
        Some(k) => {
            proof {
                crate::text::lemma_rfind_char_bounds(base@, '.');
            }
            if k > 0 {
                subvec(&base, k + 1, base.len())
            } else {
                Vec::new()
            }
        },
        None => Vec::new(),
    }
}

/// The icon for a file name's extension.
pub open spec fn spec_file_icon(name: Seq<char>) -> Seq<char> {
    let ext = spec_extension(name);
    if ext == "rs"@ {
        "\u{1F980}"@
    } else if ext == "py"@ {
        "\u{1F40D}"@
    } else if ext == "js"@ || ext == "ts"@ {
        "\u{1F4DC}"@
    } else if ext == "html"@ {
        "\u{1F310}"@
    } else if ext == "css"@ {
        "\u{1F3A8}"@
    } else if ext == "json"@ {
        "\u{1F4CB}"@
    } else if ext == "md"@ {
        "\u{1F4C4}"@
    } else if ext == "txt"@ {
        "\u{1F4C3}"@
    } else if ext == "toml"@ || ext == "yaml"@ || ext == "yml"@ {
        "\u{2699}\u{FE0F}"@
    } else {
        "\u{1F4C4}"@
    }
}

fn ext_is(ext: &Vec<char>, lit: &str) -> (r: bool)
    ensures
        r == (ext@ == lit@),
{
    let lit_chars = to_chars(lit);
    if ext.len() != lit_chars.len() {
        proof {
            assert(ext@ != lit@);
        }
        return false;
    }
    let r = crate::text::check_at(ext, 0, &lit_chars);
    proof {
        assert(ext@.subrange(0, lit@.len() as int) =~= ext@);
    }
    r
}

/// The icon shown next to a file name (`spec_file_icon`), exactly.
pub fn get_file_icon(filename: &str) -> (r: &'static str)
    ensures
        r@ == spec_file_icon(filename@),
{
    let ext = extension_of(filename);
    if ext_is(&ext, "rs") {
        "\u{1F980}"
    } else if ext_is(&ext, "py") {
        "\u{1F40D}"
    } else if ext_is(&ext, "js") || ext_is(&ext, "ts") {
        "\u{1F4DC}"
    } else if ext_is(&ext, "html") {
        "\u{1F310}"
    } else if ext_is(&ext, "css") {
        "\u{1F3A8}"
    } else if ext_is(&ext, "json") {
        "\u{1F4CB}"
    } else if ext_is(&ext, "md") {
        "\u{1F4C4}"
    } else if ext_is(&ext, "txt") {
        "\u{1F4C3}"
    } else if ext_is(&ext, "toml") || ext_is(&ext, "yaml") || ext_is(&ext, "yml") {
        "\u{2699}\u{FE0F}"
    } else {
        "\u{1F4C4}"
    }
}

} // verus!
