//! The state of an editing session: the text of the file, the settings as
//! edited, and the settings as last read from the file.

use vstd::prelude::*;
use crate::flag::{flag_of, flag_spec, toggled, toggled_spec};
use crate::nix::{
    first_solid, has_pair, inherit_word, is_blank, keys_distinct, lists_map, mentions_inherit,
    braced, closes_brace, ident_char, key_char_ok, last_solid, opens_brace, parse_is_clean, plain_key, parses_cleanly, read_settings, settings_of, write_setting,
    written_of,
};
use crate::text::{key_less, key_lt, lemma_key_lt_total, lemma_key_lt_transitive};

verus! {

/// The entries of `s` stand in strictly increasing order of key.
pub open spec fn sorted_by_key(s: Seq<(String, String)>) -> bool {
    forall|i: int, j: int| 0 <= i < j < s.len() ==> key_lt(#[trigger] s[i].0@, #[trigger] s[j].0@)
}

/// `a` and `b` hold the same entries.
pub open spec fn same_entries(a: Seq<(String, String)>, b: Seq<(String, String)>) -> bool {
    &&& forall|i: int| 0 <= i < a.len() ==> has_pair(b, #[trigger] a[i].0@, a[i].1@)
    &&& forall|j: int| 0 <= j < b.len() ==> has_pair(a, #[trigger] b[j].0@, b[j].1@)
}

/// The entries of `v` in increasing order of key.
pub fn sort_by_key(v: Vec<(String, String)>) -> (r: Vec<(String, String)>)
    requires
        keys_distinct(v@),
    ensures
        sorted_by_key(r@),
        keys_distinct(r@),
        same_entries(r@, v@),
        r@.len() == v@.len(),
{
    let mut out: Vec<(String, String)> = Vec::new();
    let mut i: usize = 0;
    while i < v.len()
        invariant
            i <= v@.len(),
            keys_distinct(v@),
            out@.len() == i,
            sorted_by_key(out@),
            forall|j: int| 0 <= j < out@.len() ==> has_pair(v@.take(i as int), #[trigger] out@[j].0@, out@[j].1@),
            forall|j: int| 0 <= j < i ==> has_pair(out@, #[trigger] v@[j].0@, v@[j].1@),
        decreases v@.len() - i,
    {
        let e = (v[i].0.clone(), v[i].1.clone());
        assert(e == v@[i as int]);
        let mut p: usize = 0;
        while p < out.len() && key_less(out[p].0.as_str(), e.0.as_str())
            invariant
                p <= out@.len(),
                forall|j: int| 0 <= j < p ==> key_lt(#[trigger] out@[j].0@, e.0@),
            decreases out@.len() - p,
        {
            p = p + 1;
        }
        let ghost old_out = out@;
        proof {
            // The new key is new to `out`: every key there comes from an earlier entry.
            assert forall|j: int| 0 <= j < old_out.len() implies #[trigger] old_out[j].0@ != e.0@ by {
                let k = choose|k: int| 0 <= k < i && #[trigger] v@.take(i as int)[k].0@ == old_out[j].0@ && v@.take(i as int)[k].1@ == old_out[j].1@;
                assert(v@[k].0@ == old_out[j].0@);
                assert(v@[k].0@ != v@[i as int].0@);
            }
            if p < old_out.len() {
                lemma_key_lt_total(old_out[p as int].0@, e.0@);
                assert forall|j: int| p <= j < old_out.len() implies key_lt(e.0@, #[trigger] old_out[j].0@) by {
                    if j > p {
                        lemma_key_lt_transitive(e.0@, old_out[p as int].0@, old_out[j].0@);
                    }
                }
            }
        }
        out.insert(p, e);
        proof {
            let n = out@;
            assert(n[p as int] == e);
            assert forall|a: int, b: int| 0 <= a < b < n.len() implies key_lt(#[trigger] n[a].0@, #[trigger] n[b].0@) by {
                if a < p && b == p {
                } else if a < p && b > p {
                    assert(n[b] == old_out[b - 1]);
                } else if a == p {
                    assert(n[b] == old_out[b - 1]);
                } else if b < p {
                } else {
                    assert(n[a] == old_out[a - 1]);
                    assert(n[b] == old_out[b - 1]);
                }
            }
            assert(v@.take(i + 1)[i as int] == e);
            assert forall|j: int| 0 <= j < n.len() implies has_pair(v@.take(i + 1), #[trigger] n[j].0@, n[j].1@) by {
                if j == p {
                    assert(v@.take(i + 1)[i as int] == e);
                } else {
                    let jj = if j < p { j } else { j - 1 };
                    assert(n[j] == old_out[jj]);
                    let k = choose|k: int| 0 <= k < i && #[trigger] v@.take(i as int)[k].0@ == old_out[jj].0@ && v@.take(i as int)[k].1@ == old_out[jj].1@;
                    assert(v@.take(i + 1)[k] == v@.take(i as int)[k]);
                }
            }
            assert forall|j: int| 0 <= j < i + 1 implies has_pair(n, #[trigger] v@[j].0@, v@[j].1@) by {
                if j == i {
                    assert(n[p as int] == v@[j]);
                } else {
                    assert(has_pair(old_out, v@[j].0@, v@[j].1@));
                    let k = choose|k: int| 0 <= k < old_out.len() && #[trigger] old_out[k].0@ == v@[j].0@ && old_out[k].1@ == v@[j].1@;
                    let kk = if k < p { k } else { k + 1 };
                    assert(n[kk] == old_out[k]);
                }
            }
        }
        i = i + 1;
    }
    proof {
        assert(v@.take(v@.len() as int) =~= v@);
        assert forall|a: int, b: int| 0 <= a < out@.len() && 0 <= b < out@.len() && a != b implies #[trigger] out@[a].0@ != #[trigger] out@[b].0@ by {
            if a < b {
                crate::text::lemma_key_lt_irreflexive(out@[a].0@);
            } else {
                crate::text::lemma_key_lt_irreflexive(out@[b].0@);
            }
        }
    }
    out
}

/// Why the settings could not be read or written back.
#[derive(Debug)]
pub enum EditError {
    /// The file does not parse without error, or holds no attribute set.
    Unparsable,
    /// The file holds an `inherit` keyword, which the writer is not trusted
    /// with.
    Unsupported,
    /// `key` has a part that is quoted or interpolated.
    UnsupportedKey { key: String },
    /// `key` is not a setting of the file as it stands.
    UnknownKey { key: String },
    /// The value given for `key` does not parse without error, or starts with
    /// `{` and ends with `}`.
    BadValue { key: String },
    /// Writing `key` into the file was refused.
    WriteRejected { key: String },
}

/// The mathematical form of an `EditError`.
pub enum Fault {
    Unparsable,
    Unsupported,
    UnsupportedKey(Seq<char>),
    UnknownKey(Seq<char>),
    BadValue(Seq<char>),
    WriteRejected(Seq<char>),
}

impl View for EditError {
    type V = Fault;

    open spec fn view(&self) -> Fault {
        match self {
            EditError::Unparsable => Fault::Unparsable,
            EditError::Unsupported => Fault::Unsupported,
            EditError::UnsupportedKey { key } => Fault::UnsupportedKey(key@),
            EditError::UnknownKey { key } => Fault::UnknownKey(key@),
            EditError::BadValue { key } => Fault::BadValue(key@),
            EditError::WriteRejected { key } => Fault::WriteRejected(key@),
        }
    }
}

/// The mathematical form of what writing settings back returns.
pub open spec fn outcome_view(r: Result<String, EditError>) -> Result<Seq<char>, Fault> {
    match r {
        Ok(s) => Ok(s@),
        Err(e) => Err(e@),
    }
}

/// What setting each entry of `ws` in turn makes of `file`. Before each write
/// the file as it stands must parse and hold no `inherit` keyword, the entry's key
/// must be plain and among its settings, and the value must parse and not be
/// braced;
/// the first entry for which that fails, or whose write is refused, stops the
/// run.
pub open spec fn rewrite(file: Seq<char>, ws: Seq<(String, String)>) -> Result<Seq<char>, Fault>
    decreases ws.len(),
{
    if ws.len() == 0 {
        Ok(file)
    } else if !parses_cleanly(file) || settings_of(file) is None {
        Err(Fault::Unparsable)
    } else if mentions_inherit(file) {
        Err(Fault::Unsupported)
    } else if !plain_key(ws[0].0@) {
        Err(Fault::UnsupportedKey(ws[0].0@))
    } else if !settings_of(file)->Some_0.contains_key(ws[0].0@) {
        Err(Fault::UnknownKey(ws[0].0@))
    } else if !parses_cleanly(ws[0].1@) || braced(ws[0].1@) {
        Err(Fault::BadValue(ws[0].0@))
    } else {
        match written_of(file, ws[0].0@, ws[0].1@) {
            Some(f) => rewrite(f, ws.drop_first()),
            None => Err(Fault::WriteRejected(ws[0].0@)),
        }
    }
}

/// Two values are the same setting: equal, or both the same boolean in any
/// ASCII case.
pub open spec fn same_value(a: Seq<char>, b: Seq<char>) -> bool {
    a == b || (flag_spec(a) is Some && flag_spec(a) == flag_spec(b))
}

/// `last` holds the key of `e` with the same value as `e`.
pub open spec fn is_unchanged(last: Seq<(String, String)>, e: (String, String)) -> bool {
    exists|j: int| 0 <= j < last.len() && #[trigger] last[j].0@ == e.0@ && same_value(last[j].1@, e.1@)
}

/// The edited entries that differ from what was last read, in their order.
pub open spec fn changes_spec(nix: Seq<(String, String)>, last: Seq<(String, String)>) -> Seq<(String, String)> {
    nix.filter(|e: (String, String)| !is_unchanged(last, e))
}

/// With nothing edited there is nothing to write: every setting equals the
/// one last read, so the file comes back as it was.
pub proof fn lemma_unedited_writes_nothing(file: Seq<char>, last: Seq<(String, String)>)
    ensures
        changes_spec(last, last) == Seq::<(String, String)>::empty(),
        rewrite(file, changes_spec(last, last)) == Ok::<Seq<char>, Fault>(file),
{
    lemma_no_changes_against_prefix(last, last.len() as int);
    assert(last.take(last.len() as int) =~= last);
}

proof fn lemma_no_changes_against_prefix(last: Seq<(String, String)>, n: int)
    requires
        0 <= n <= last.len(),
    ensures
        changes_spec(last.take(n), last) == Seq::<(String, String)>::empty(),
    decreases n,
{
    reveal(Seq::filter);
    if n > 0 {
        lemma_no_changes_against_prefix(last, n - 1);
        let t = last.take(n);
        assert(t.drop_last() =~= last.take(n - 1));
        assert(same_value(last[n - 1].1@, t.last().1@));
        assert(is_unchanged(last, t.last()));
    }
}

/// A switch flipped twice is no edit: its value reads as the same boolean as
/// the one it started from.
pub proof fn lemma_toggle_twice_is_no_edit(v: Seq<char>)
    requires
        flag_spec(v) is Some,
    ensures
        same_value(v, toggled_spec(toggled_spec(v))),
{
    crate::flag::lemma_toggle_twice(v);
}

/// A copy of `v`.
pub fn copy_entries(v: &Vec<(String, String)>) -> (r: Vec<(String, String)>)
    ensures
        r@ == v@,
{
    let mut out: Vec<(String, String)> = Vec::new();
    let mut i: usize = 0;
    while i < v.len()
        invariant
            i <= v@.len(),
            out@ == v@.take(i as int),
        decreases v@.len() - i,
    {
        out.push((v[i].0.clone(), v[i].1.clone()));
        assert(v@.take(i + 1) =~= v@.take(i as int).push(v@[i as int]));
        i = i + 1;
    }
    assert(v@.take(v@.len() as int) =~= v@);
    out
}

/// Whether `a` and `b` are the same setting value.
pub fn same_value_exec(a: &String, b: &String) -> (r: bool)
    ensures
        r == same_value(a@, b@),
{
    if *a == *b {
        return true;
    }
    let fa = flag_of(a.as_str());
    let fb = flag_of(b.as_str());
    match (fa, fb) {
        (Some(x), Some(y)) => x == y,
        _ => false,
    }
}

/// Whether the last character of `v` that is not white space is `}`.
pub fn closes_brace_exec(v: &str) -> (r: bool)
    ensures
        r == closes_brace(v@),
{
    let c = crate::text::chars_of(v);
    let mut i: usize = c.len();
    while i > 0 && is_blank_char(c[i - 1])
        invariant
            c@ == v@,
            i <= c@.len(),
            forall|j: int| i <= j < v@.len() ==> is_blank(#[trigger] v@[j]),
        decreases i,
    {
        i = i - 1;
    }
    if i == 0 {
        proof {
            assert forall|k: int| 0 <= k < v@.len() implies !#[trigger] last_solid(v@, k) by {
                assert(is_blank(v@[k]));
            }
        }
        return false;
    }
    proof {
        let t = i - 1;
        assert(last_solid(v@, t));
        assert forall|k: int| 0 <= k < v@.len() && #[trigger] last_solid(v@, k) implies k == t by {
            if k < t {
                assert(is_blank(v@[t]));
            } else if k > t {
                assert(is_blank(v@[k]));
            }
        }
    }
    c[i - 1] == '}'
}

/// Whether `c` is a character of a plain Nix identifier.
pub fn is_ident_char(c: char) -> (r: bool)
    ensures
        r == ident_char(c),
{
    ('a' <= c && c <= 'z') || ('A' <= c && c <= 'Z') || ('0' <= c && c <= '9') || c == '_' || c
        == '-' || c == '\''
}

/// Whether `k` is made of plain identifiers joined by single dots.
pub fn plain_key_exec(k: &str) -> (r: bool)
    ensures
        r == plain_key(k@),
{
    let c = crate::text::chars_of(k);
    if c.len() == 0 {
        return false;
    }
    let mut i: usize = 0;
    while i < c.len()
        invariant
            c@ == k@,
            i <= c@.len(),
            forall|j: int| 0 <= j < i ==> #[trigger] key_char_ok(k@, j),
        decreases c@.len() - i,
    {
        let ok = is_ident_char(c[i]) || (c[i] == '.' && i > 0 && i + 1 < c.len() && c[i + 1] != '.');
        if !ok {
            assert(!key_char_ok(k@, i as int));
            return false;
        }
        i = i + 1;
    }
    true
}

/// Whether `c` is white space.
pub fn is_blank_char(c: char) -> (r: bool)
    ensures
        r == is_blank(c),
{
    ('\u{9}' <= c && c <= '\u{d}') || c == ' ' || c == '\u{85}' || c == '\u{a0}' || c
        == '\u{1680}' || ('\u{2000}' <= c && c <= '\u{200a}') || c == '\u{2028}' || c
        == '\u{2029}' || c == '\u{202f}' || c == '\u{205f}' || c == '\u{3000}'
}

/// Whether the first character of `v` that is not white space is `{`.
pub fn opens_brace_exec(v: &str) -> (r: bool)
    ensures
        r == opens_brace(v@),
{
    let c = crate::text::chars_of(v);
    let mut i: usize = 0;
    while i < c.len() && is_blank_char(c[i])
        invariant
            c@ == v@,
            i <= c@.len(),
            forall|j: int| 0 <= j < i ==> is_blank(#[trigger] v@[j]),
        decreases c@.len() - i,
    {
        i = i + 1;
    }
    if i == c.len() {
        proof {
            assert forall|k: int| 0 <= k < v@.len() implies !#[trigger] first_solid(v@, k) by {
                assert(is_blank(v@[k]));
            }
        }
        return false;
    }
    proof {
        assert(first_solid(v@, i as int));
        assert forall|k: int| 0 <= k < v@.len() && #[trigger] first_solid(v@, k) implies k == i by {
            if k < i {
                assert(is_blank(v@[k]));
            } else if k > i {
                assert(is_blank(v@[i as int]));
            }
        }
    }
    c[i] == '{'
}

/// Whether `inherit` stands in `text` followed by no identifier character.
pub fn mentions_inherit_exec(text: &str) -> (r: bool)
    ensures
        r == mentions_inherit(text@),
{
    let c = crate::text::chars_of(text);
    let mut i: usize = 0;
    while i < c.len() && c.len() - i >= 7
        invariant
            c@ == text@,
            i <= c@.len(),
            forall|j: int|
                0 <= j < i && j + 7 <= text@.len() ==> !(#[trigger] text@.subrange(j, j + 7)
                    == inherit_word() && (j + 7 == text@.len() || !ident_char(text@[j + 7]))),
        decreases c@.len() - i,
    {
        let word = c[i] == 'i' && c[i + 1] == 'n' && c[i + 2] == 'h' && c[i + 3] == 'e' && c[i + 4]
            == 'r' && c[i + 5] == 'i' && c[i + 6] == 't';
        let ends = i + 7 == c.len() || !is_ident_char(c[i + 7]);
        proof {
            let w = text@.subrange(i as int, i + 7);
            if word {
                assert(w =~= inherit_word());
            } else if w == inherit_word() {
                assert(w[0] == 'i' && w[1] == 'n' && w[2] == 'h' && w[3] == 'e' && w[4] == 'r'
                    && w[5] == 'i' && w[6] == 't');
            }
        }
        if word && ends {
            return true;
        }
        i = i + 1;
    }
    proof {
        assert forall|j: int| 0 <= j && j + 7 <= text@.len() implies !(#[trigger] text@.subrange(j, j + 7)
            == inherit_word() && (j + 7 == text@.len() || !ident_char(text@[j + 7]))) by {
            assert(j < i);
        }
    }
    false
}

/// Whether one of the entries of `list` has the key `key`.
pub fn has_key(list: &Vec<(String, String)>, key: &String) -> (r: bool)
    ensures
        r == exists|j: int| 0 <= j < list@.len() && #[trigger] list@[j].0@ == key@,
{
    let mut j: usize = 0;
    while j < list.len()
        invariant
            j <= list@.len(),
            forall|k: int| 0 <= k < j ==> #[trigger] list@[k].0@ != key@,
        decreases list@.len() - j,
    {
        if list[j].0 == *key {
            return true;
        }
        j = j + 1;
    }
    false
}

/// Sets each entry of `ws` in `file` in turn, through nix_editor's writer,
/// testing before each write what the writer is relied on for.
pub fn write_all(file: &String, ws: &Vec<(String, String)>) -> (r: Result<String, EditError>)
    ensures
        outcome_view(r) == rewrite(file@, ws@),
{
    let mut s = file.clone();
    let mut i: usize = 0;
    assert(ws@.skip(0) =~= ws@);
    while i < ws.len()
        invariant
            i <= ws@.len(),
            rewrite(file@, ws@) == rewrite(s@, ws@.skip(i as int)),
        decreases ws@.len() - i,
    {
        let ghost rest = ws@.skip(i as int);
        assert(rest[0] == ws@[i as int]);
        assert(rest.drop_first() =~= ws@.skip(i + 1));
        if !parse_is_clean(s.as_str()) {
            return Err(EditError::Unparsable);
        }
        let listed = match read_settings(&s) {
            Ok(list) => list,
            Err(_) => {
                return Err(EditError::Unparsable);
            },
        };
        if mentions_inherit_exec(s.as_str()) {
            return Err(EditError::Unsupported);
        }
        if !plain_key_exec(ws[i].0.as_str()) {
            return Err(EditError::UnsupportedKey { key: ws[i].0.clone() });
        }
        let known = has_key(&listed, &ws[i].0);
        proof {
            let m = settings_of(s@)->Some_0;
            if m.contains_key(ws@[i as int].0@) {
                assert(has_pair(listed@, ws@[i as int].0@, m[ws@[i as int].0@]));
            }
        }
        if !known {
            return Err(EditError::UnknownKey { key: ws[i].0.clone() });
        }
        if !parse_is_clean(ws[i].1.as_str()) || (opens_brace_exec(ws[i].1.as_str())
            && closes_brace_exec(ws[i].1.as_str())) {
            return Err(EditError::BadValue { key: ws[i].0.clone() });
        }
        match write_setting(&s, &ws[i].0, &ws[i].1) {
            Ok(next) => {
                s = next;
            },
            Err(_) => {
                return Err(EditError::WriteRejected { key: ws[i].0.clone() });
            },
        }
        i = i + 1;
    }
    assert(ws@.skip(i as int).len() == 0);
    Ok(s)
}

/// An editing session over one configuration file.
pub struct ConfigState {
    /// The text of the file as last read or written.
    pub file: String,
    /// The settings as edited, in increasing order of key.
    pub nix: Vec<(String, String)>,
    /// The settings as last read from `file`, in increasing order of key.
    pub last: Vec<(String, String)>,
}

impl ConfigState {
    /// Both lists are sorted by key, and the edited settings have the keys of
    /// those last read, in the same places.
    pub open spec fn wf(&self) -> bool {
        &&& sorted_by_key(self.last@)
        &&& keys_distinct(self.last@)
        &&& self.nix@.len() == self.last@.len()
        &&& forall|i: int| 0 <= i < self.nix@.len() ==> (#[trigger] self.nix@[i]).0@ == self.last@[i].0@
    }

    /// Reads the settings of `file` and starts a session with nothing edited;
    /// a file that does not parse without error is refused.
    pub fn load(file: String) -> (r: Result<ConfigState, EditError>)
        ensures
            r is Ok <==> parses_cleanly(file@) && settings_of(file@) is Some,
            r is Err ==> r->Err_0 == EditError::Unparsable,
            r is Ok ==> ({
                let s = r->Ok_0;
                &&& s.file == file
                &&& s.wf()
                &&& lists_map(s.last@, settings_of(file@)->Some_0)
                &&& s.nix@ == s.last@
            }),
    {
        if !parse_is_clean(file.as_str()) {
            return Err(EditError::Unparsable);
        }
        match read_settings(&file) {
            Ok(pairs) => {
                let last = sort_by_key(pairs);
                proof {
                    let m = settings_of(file@)->Some_0;
                    assert forall|i: int| 0 <= i < last@.len() implies #[trigger] m.contains_key(last@[i].0@) && m[last@[i].0@] == last@[i].1@ by {
                        assert(has_pair(pairs@, last@[i].0@, last@[i].1@));
                    }
                    assert forall|k: Seq<char>| #[trigger] m.contains_key(k) implies has_pair(last@, k, m[k]) by {
                        assert(has_pair(pairs@, k, m[k]));
                        let j = choose|j: int| 0 <= j < pairs@.len() && #[trigger] pairs@[j].0@ == k && pairs@[j].1@ == m[k];
                        assert(has_pair(last@, pairs@[j].0@, pairs@[j].1@));
                    }
                }
                let nix = copy_entries(&last);
                Ok(ConfigState { file, nix, last })
            },
            Err(_) => Err(EditError::Unparsable),
        }
    }

    /// Drops every edit: the settings become those last read.
    pub fn discard(&mut self)
        ensures
            final(self).nix@ == old(self).last@,
            final(self).last@ == old(self).last@,
            final(self).file == old(self).file,
    {
        self.nix = copy_entries(&self.last);
    }

    /// Flips the switch of the setting at `i`; a setting that is no boolean,
    /// or an `i` past the end, leaves the session as it is.
    pub fn toggle(&mut self, i: usize)
        ensures
            final(self).file == old(self).file,
            final(self).last@ == old(self).last@,
            final(self).nix@.len() == old(self).nix@.len(),
            forall|j: int| 0 <= j < old(self).nix@.len() && j != i ==> #[trigger] final(self).nix@[j] == old(self).nix@[j],
            i < old(self).nix@.len() ==> final(self).nix@[i as int].0 == old(self).nix@[i as int].0
                && final(self).nix@[i as int].1@ == toggled_spec(old(self).nix@[i as int].1@),
    {
        if i < self.nix.len() {
            let v = toggled(self.nix[i].1.as_str());
            self.nix[i].1 = v;
        }
    }

    /// Gives the setting at `i` the text `value`; an `i` past the end leaves
    /// the session as it is.
    pub fn set_value(&mut self, i: usize, value: String)
        ensures
            final(self).file == old(self).file,
            final(self).last@ == old(self).last@,
            final(self).nix@.len() == old(self).nix@.len(),
            forall|j: int| 0 <= j < old(self).nix@.len() && j != i ==> #[trigger] final(self).nix@[j] == old(self).nix@[j],
            i < old(self).nix@.len() ==> final(self).nix@[i as int].0 == old(self).nix@[i as int].0
                && final(self).nix@[i as int].1 == value,
    {
        if i < self.nix.len() {
            self.nix[i].1 = value;
        }
    }

    /// The edited settings whose key was not read from the file, or whose
    /// value is not the same as the one read (see `same_value`).
    pub fn changes(&self) -> (r: Vec<(String, String)>)
        requires
            keys_distinct(self.last@),
        ensures
            r@ == changes_spec(self.nix@, self.last@),
    {
        let mut out: Vec<(String, String)> = Vec::new();
        let mut i: usize = 0;
        while i < self.nix.len()
            invariant
                i <= self.nix@.len(),
                keys_distinct(self.last@),
                out@ == changes_spec(self.nix@.take(i as int), self.last@),
            decreases self.nix@.len() - i,
        {
            let ghost e = self.nix@[i as int];
            let mut j: usize = 0;
            let mut found = false;
            let mut same = false;
            while j < self.last.len() && !found
                invariant
                    i < self.nix@.len(),
                    e == self.nix@[i as int],
                    j <= self.last@.len(),
                    keys_distinct(self.last@),
                    !found ==> !same,
                    !found ==> forall|k: int| 0 <= k < j ==> #[trigger] self.last@[k].0@ != e.0@,
                    found ==> 0 < j && self.last@[j - 1].0@ == e.0@ && same == same_value(
                        self.last@[j - 1].1@,
                        e.1@,
                    ),
                decreases self.last@.len() - j,
            {
                if self.last[j].0 == self.nix[i].0 {
                    found = true;
                    same = same_value_exec(&self.last[j].1, &self.nix[i].1);
                }
                j = j + 1;
            }
            proof {
                if found {
                    assert forall|k: int| 0 <= k < self.last@.len() && #[trigger] self.last@[k].0@ == e.0@ implies k == j - 1 by {}
                }
            }
            assert(same == is_unchanged(self.last@, e));
            if !same {
                out.push((self.nix[i].0.clone(), self.nix[i].1.clone()));
            }
            proof {
                let t = self.nix@.take(i + 1);
                assert(t.drop_last() =~= self.nix@.take(i as int));
                assert(t.last() == e);
                reveal(Seq::filter);
            }
            i = i + 1;
        }
        assert(self.nix@.take(self.nix@.len() as int) =~= self.nix@);
        out
    }

    /// The text of the file with every changed setting written into it.
    pub fn pending_file(&self) -> (r: Result<String, EditError>)
        requires
            keys_distinct(self.last@),
        ensures
            outcome_view(r) == rewrite(self.file@, changes_spec(self.nix@, self.last@)),
    {
        let ws = self.changes();
        write_all(&self.file, &ws)
    }
}

} // verus!
