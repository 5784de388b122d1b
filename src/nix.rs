//! The calls into `nix_editor` that read the settings of a configuration file
//! and write one setting back, with what this library relies on of them.

use vstd::prelude::*;

verus! {

#[verifier::external_type_specification]
#[verifier::external_body]
pub struct ExReadError(nix_editor::read::ReadError);

#[verifier::external_type_specification]
#[verifier::external_body]
pub struct ExWriteError(nix_editor::write::WriteError);

/// What `nix_editor::parse::get_collection` makes of a file: `None` where it
/// finds no attribute set, else the map from each setting's dotted key to the
/// text of its value.
pub uninterp spec fn settings_of(file: Seq<char>) -> Option<Map<Seq<char>, Seq<char>>>;

/// What `nix_editor::write::write` makes of a file when it sets `key` to
/// `value`, on the inputs that `write_setting` admits: `None` where it reports
/// an error, else the new text of the file.
pub uninterp spec fn written_of(file: Seq<char>, key: Seq<char>, value: Seq<char>) -> Option<
    Seq<char>,
>;

/// Whether rnix, the parser that nix_editor runs, reports no error for `text`.
pub uninterp spec fn parses_cleanly(text: Seq<char>) -> bool;

/// No two entries share a key.
pub open spec fn keys_distinct(s: Seq<(String, String)>) -> bool {
    forall|i: int, j: int|
        0 <= i < s.len() && 0 <= j < s.len() && i != j ==> #[trigger] s[i].0@ != #[trigger] s[j].0@
}

/// The entry `(k, v)` stands in `s`.
pub open spec fn has_pair(s: Seq<(String, String)>, k: Seq<char>, v: Seq<char>) -> bool {
    exists|i: int| 0 <= i < s.len() && #[trigger] s[i].0@ == k && s[i].1@ == v
}

/// `s` lists the entries of `m`, each once.
pub open spec fn lists_map(s: Seq<(String, String)>, m: Map<Seq<char>, Seq<char>>) -> bool {
    &&& keys_distinct(s)
    &&& forall|i: int| 0 <= i < s.len() ==> #[trigger] m.contains_key(s[i].0@) && m[s[i].0@] == s[i].1@
    &&& forall|k: Seq<char>| #[trigger] m.contains_key(k) ==> has_pair(s, k, m[k])
}

/// The first character of `v` that is not white space is an opening brace:
/// nix_editor writes such a value as an attribute set.
pub open spec fn opens_brace(v: Seq<char>) -> bool {
    exists|i: int| 0 <= i < v.len() && #[trigger] first_solid(v, i) && v[i] == '{'
}

/// The last character of `v` that is not white space is a closing brace.
pub open spec fn closes_brace(v: Seq<char>) -> bool {
    exists|i: int| 0 <= i < v.len() && #[trigger] last_solid(v, i) && v[i] == '}'
}

/// Both of the above: nix_editor tries such a value as an attribute set.
pub open spec fn braced(v: Seq<char>) -> bool {
    opens_brace(v) && closes_brace(v)
}

/// `v[i]` is the last character of `v` that is not white space.
pub open spec fn last_solid(v: Seq<char>, i: int) -> bool {
    &&& !is_blank(v[i])
    &&& forall|j: int| i < j < v.len() ==> is_blank(#[trigger] v[j])
}

/// A character of a plain Nix identifier.
pub open spec fn ident_char(c: char) -> bool {
    ||| ('a' <= c && c <= 'z')
    ||| ('A' <= c && c <= 'Z')
    ||| ('0' <= c && c <= '9')
    ||| c == '_'
    ||| c == '-'
    ||| c == '\''
}

/// `k[j]` is an identifier character, or a dot with an identifier character
/// before it and one after it.
pub open spec fn key_char_ok(k: Seq<char>, j: int) -> bool {
    ||| ident_char(k[j])
    ||| (k[j] == '.' && 0 < j && j + 1 < k.len() && k[j + 1] != '.')
}

/// A key made of plain identifiers joined by single dots: nix_editor splits a
/// key at its dots and matches each part against the identifiers of a binding,
/// so a quoted or interpolated part cannot be found again.
pub open spec fn plain_key(k: Seq<char>) -> bool {
    &&& k.len() > 0
    &&& forall|j: int| 0 <= j < k.len() ==> #[trigger] key_char_ok(k, j)
}

/// `v[i]` is the first character of `v` that is not white space.
pub open spec fn first_solid(v: Seq<char>, i: int) -> bool {
    &&& !is_blank(v[i])
    &&& forall|j: int| 0 <= j < i ==> is_blank(#[trigger] v[j])
}

/// White space as `char::is_whitespace` has it (the Unicode `White_Space`
/// property), which is what rnix's tokenizer and `str::trim_start` skip.
pub open spec fn is_blank(c: char) -> bool {
    ||| ('\u{9}' <= c && c <= '\u{d}')
    ||| c == ' '
    ||| c == '\u{85}'
    ||| c == '\u{a0}'
    ||| c == '\u{1680}'
    ||| ('\u{2000}' <= c && c <= '\u{200a}')
    ||| c == '\u{2028}'
    ||| c == '\u{2029}'
    ||| c == '\u{202f}'
    ||| c == '\u{205f}'
    ||| c == '\u{3000}'
}

/// `inherit` stands in `text` followed by no identifier character. rnix reads
/// an identifier as long as identifier characters follow, so every `inherit`
/// keyword of a file is such a place.
pub open spec fn mentions_inherit(text: Seq<char>) -> bool {
    exists|i: int|
        0 <= i && i + 7 <= text.len() && #[trigger] text.subrange(i, i + 7) == inherit_word() && (i
            + 7 == text.len() || !ident_char(text[i + 7]))
}

pub open spec fn inherit_word() -> Seq<char> {
    seq!['i', 'n', 'h', 'e', 'r', 'i', 't']
}

/// The inputs on which `nix_editor::write::write` is relied on: a file that
/// parses without error and holds no `inherit` keyword; a plain key among its
/// settings; a value that parses without error and is not braced.
pub open spec fn writable(file: Seq<char>, key: Seq<char>, value: Seq<char>) -> bool {
    &&& parses_cleanly(file)
    &&& !mentions_inherit(file)
    &&& settings_of(file) is Some
    &&& plain_key(key)
    &&& settings_of(file)->Some_0.contains_key(key)
    &&& parses_cleanly(value)
    &&& !braced(value)
}

/// Relies on `rnix::Root::parse`: whether the parse reports no error. The
/// parse depends on the text alone.
#[verifier::external_body]
pub(crate) fn parse_is_clean(text: &str) -> (r: bool)
    ensures
        r == parses_cleanly(text@),
{
    rnix::Root::parse(text).errors().is_empty()
}

/// Relies on `nix_editor::parse::get_collection`: it parses the file with rnix
/// and returns the settings of its top attribute set, the keys of nested sets
/// joined with dots, or `ReadError::ParseError` where it finds no attribute
/// set. Its result is a `HashMap`, so each key comes once; the order in which
/// the entries are handed on is that of the map and is not relied on.
/// It unwraps the value node of each binding, which rnix leaves out only where
/// it reports an error (`{ a =`): `requires` asks for a clean parse.
#[verifier::external_body]
pub(crate) fn read_settings(file: &String) -> (r: Result<Vec<(String, String)>, nix_editor::read::ReadError>)
    requires
        parses_cleanly(file@),
    ensures
        r is Ok <==> settings_of(file@) is Some,
        r is Ok ==> lists_map(r->Ok_0@, settings_of(file@)->Some_0),
{
    nix_editor::parse::get_collection(file.clone()).map(|m| m.into_iter().collect())
}

/// Relies on `nix_editor::write::write`: it parses the file with rnix and sets
/// `key` to `value`, and returns the new text of the file or a `WriteError`.
/// `requires` leaves out the inputs on which it panics or depends on more than
/// its arguments: a file with parse errors (an attribute set without its
/// closing brace underflows an index); a value that parses to no node (empty,
/// white space, a comment: it indexes the first node); a key that is not a
/// setting of the file, or not plain (where it cannot find the binding again
/// it unwraps the attribute set of a path through a plain binding); a file
/// with `inherit` (a lone `inherit x;` in a set bound to the key underflows a
/// child count); and a value that starts with `{` and ends with `}` (where it
/// parses to a set, its entries are written in the order of a `HashMap` walk).
/// On the inputs left it walks the syntax tree in order, so what it returns
/// depends on its arguments alone.
#[verifier::external_body]
pub(crate) fn write_setting(file: &String, key: &String, value: &String) -> (r: Result<String, nix_editor::write::WriteError>)
    requires
        writable(file@, key@, value@),
    ensures
        r is Ok <==> written_of(file@, key@, value@) is Some,
        r is Ok ==> r->Ok_0@ == written_of(file@, key@, value@)->Some_0,
{
    nix_editor::write::write(file, key, value)
}

} // verus!
