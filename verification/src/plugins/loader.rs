//! Which files of the plugins directory are loaded as plugins.

use vstd::prelude::*;

use crate::text::{chars_eq, chars_of, slice_chars};

verus! {

/// The directory that plugins are loaded from.
pub const PLUGINS_DIR: &'static str = "plugins";

/// The index of the last `.` in `name`, or -1.
pub open spec fn last_dot(name: Seq<char>) -> int
    decreases name.len(),
{
    if name.len() == 0 {
        -1
    } else if name.last() == '.' {
        name.len() - 1
    } else {
        last_dot(name.drop_last())
    }
}

/// The extension of a file name, as `Path::extension` gives it: what follows
/// the last `.`; none when there is no `.`, when the only `.` begins the name,
/// or for `..`.
pub open spec fn extension_of(name: Seq<char>) -> Option<Seq<char>> {
    if name == seq!['.', '.'] || last_dot(name) <= 0 {
        None
    } else {
        Some(name.skip(last_dot(name) + 1))
    }
}

/// Whether an extension is that of a shared library: `so`, `dylib` or `dll`.
pub open spec fn is_library_extension(ext: Seq<char>) -> bool {
    ext == "so"@ || ext == "dylib"@ || ext == "dll"@
}

/// Whether a file name is that of a plugin: its extension is a shared library's.
pub open spec fn is_plugin_name(name: Seq<char>) -> bool {
    match extension_of(name) {
        Some(ext) => is_library_extension(ext),
        None => false,
    }
}

/// Whether `name` ends with a `.` and then `ext`, with at least one character
/// before the `.`.
pub open spec fn ends_with_extension(name: Seq<char>, ext: Seq<char>) -> bool {
    name.len() > ext.len() + 1 && name.skip(name.len() - ext.len() - 1) == seq!['.'] + ext
}

proof fn lemma_last_dot_bounds(name: Seq<char>)
    ensures
        -1 <= last_dot(name) < name.len(),
        last_dot(name) >= 0 ==> name[last_dot(name)] == '.',
        forall|j: int| last_dot(name) < j < name.len() ==> name[j] != '.',
    decreases name.len(),
{
    if name.len() > 0 && name.last() != '.' {
        lemma_last_dot_bounds(name.drop_last());
        assert forall|j: int| last_dot(name) < j < name.len() implies name[j] != '.' by {
            if j < name.len() - 1 {
                assert(name.drop_last()[j] == name[j]);
            }
        }
    }
}

proof fn lemma_last_dot_at(name: Seq<char>, k: int)
    requires
        0 <= k < name.len(),
        name[k] == '.',
        forall|j: int| k < j < name.len() ==> name[j] != '.',
    ensures
        last_dot(name) == k,
    decreases name.len(),
{
    if k < name.len() - 1 {
        assert(name.last() != '.');
        assert forall|j: int| k < j < name.drop_last().len() implies name.drop_last()[j] != '.' by {
            assert(name.drop_last()[j] == name[j]);
        }
        lemma_last_dot_at(name.drop_last(), k);
    }
}

proof fn lemma_extension_suffix(name: Seq<char>, ext: Seq<char>)
    requires
        ext.len() > 0,
        forall|j: int| 0 <= j < ext.len() ==> ext[j] != '.',
    ensures
        (extension_of(name) == Some(ext)) <==> ends_with_extension(name, ext),
{
    lemma_last_dot_bounds(name);
    let k = last_dot(name);
    if extension_of(name) == Some(ext) {
        assert(k > 0);
        assert(name.skip(k + 1) == ext);
        assert(ext.len() == name.len() - k - 1);
        assert(name.skip(k) =~= seq!['.'] + ext) by {
            assert forall|j: int| 0 <= j < name.skip(k).len() implies name.skip(k)[j] == (seq!['.'] + ext)[j] by {
                if j > 0 {
                    assert(name.skip(k)[j] == name.skip(k + 1)[j - 1]);
                }
            }
        }
        assert(ends_with_extension(name, ext));
    }
    if ends_with_extension(name, ext) {
        let d = name.len() - ext.len() - 1;
        assert(name[d] == name.skip(d)[0]);
        assert forall|j: int| d < j < name.len() implies name[j] != '.' by {
            assert(name[j] == name.skip(d)[j - d]);
            assert(name.skip(d)[j - d] == ext[j - d - 1]);
        }
        lemma_last_dot_at(name, d);
        assert(name.skip(d + 1) =~= ext) by {
            assert forall|j: int| 0 <= j < ext.len() implies name.skip(d + 1)[j] == ext[j] by {
                assert(name.skip(d + 1)[j] == name.skip(d)[j + 1]);
            }
        }
        assert(name.len() >= 3);
        assert(name != seq!['.', '.']);
        assert(last_dot(name) == d && d > 0);
        assert(extension_of(name) == Some(ext));
    }
}

/// A file is loaded as a plugin exactly when its name ends with `.so`,
/// `.dylib` or `.dll` after at least one character: only the text after the
/// last `.` counts, whatever dots come before it.
pub proof fn law_plugin_names(name: Seq<char>)
    ensures
        is_plugin_name(name) <==> (ends_with_extension(name, "so"@) || ends_with_extension(
            name,
            "dylib"@,
        ) || ends_with_extension(name, "dll"@)),
{
    reveal_strlit("so");
    reveal_strlit("dylib");
    reveal_strlit("dll");
    lemma_extension_suffix(name, "so"@);
    lemma_extension_suffix(name, "dylib"@);
    lemma_extension_suffix(name, "dll"@);
}

/// Any non-empty stem followed by `.` and a shared library's extension names a
/// plugin, dots in the stem included (`example_plugin-0.1.0.so`).
pub proof fn law_stem_with_library_extension(stem: Seq<char>, ext: Seq<char>)
    requires
        stem.len() > 0,
        is_library_extension(ext),
    ensures
        is_plugin_name(stem + seq!['.'] + ext),
{
    let name = stem + seq!['.'] + ext;
    reveal_strlit("so");
    reveal_strlit("dylib");
    reveal_strlit("dll");
    assert(name.skip(name.len() - ext.len() - 1) =~= seq!['.'] + ext);
    law_plugin_names(name);
}

/// The extension of a file name (see `extension_of`).
pub fn file_extension(name: &str) -> (r: Option<String>)
    ensures
        match extension_of(name@) {
            Some(ext) => r matches Some(e) && e@ == ext,
            None => r is None,
        },
{
    let n = chars_of(name);
    let mut k: usize = n.len();
    proof {
        assert(n@.take(n@.len() as int) == n@);
    }
    while k > 0 && n[k - 1] != '.'
        invariant
            0 <= k <= n@.len(),
            last_dot(n@) == last_dot(n@.take(k as int)),
        decreases k,
    {
        proof {
            assert(n@.take(k as int).drop_last() == n@.take(k - 1));
        }
        k = k - 1;
    }
    proof {
        if k > 0 {
            assert(n@.take(k as int).last() == n@[k - 1]);
        }
        assert(last_dot(n@) == k - 1);
    }
    let mut dots: Vec<char> = Vec::new();
    dots.push('.');
    dots.push('.');
    proof {
        assert(dots@ =~= seq!['.', '.']);
        assert(n@.subrange(k as int, n@.len() as int) =~= n@.skip(k as int));
    }
    if chars_eq(&n, &dots) || k <= 1 {
        None
    } else {
        Some(crate::text::string_of(&slice_chars(&n, k, n.len())))
    }
}

/// Whether an extension is that of a shared library (see `is_library_extension`).
pub fn is_library_ext(ext: &str) -> (r: bool)
    ensures
        r == is_library_extension(ext@),
{
    let e = chars_of(ext);
    chars_eq(&e, &chars_of("so")) || chars_eq(&e, &chars_of("dylib")) || chars_eq(&e, &chars_of("dll"))
}

/// Whether a file is loaded as a plugin (see `is_plugin_name`).
pub fn is_plugin_file(name: &str) -> (r: bool)
    ensures
        r == is_plugin_name(name@),
{
    match file_extension(name) {
        Some(ext) => is_library_ext(ext.as_str()),
        None => false,
    }
}

} // verus!
