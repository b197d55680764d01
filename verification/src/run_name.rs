//! The name of a backup run: when it was made, on which host, by which user,
//! and of which configured backup.
//!
//! A name is written `{stamp}__{hostname}__{username}__{backup_name}`. The
//! stamp has a fixed width, so names sort by the time of their runs.

use crate::error::{Error, ErrorView};
use crate::schedule::{
    lemma_datetimestamp_chars, lemma_datetimestamp_order, lemma_datetimestamp_parts,
    lemma_parse_of_stamp, parse_datetimestamp, push_datetimestamp, spec_datetimestamp,
    spec_from_datetimestamp, DateTime,
};
use crate::text::{from_chars, lex_lt, push_str, slice_chars, to_chars};
use vstd::prelude::*;
use vstd::string::*;

verus! {

/// The text that stands between the fields of a run name.
pub open spec fn separator() -> Seq<char> {
    seq!['_', '_']
}

/// Whether a separator begins at place `i` of `s`.
pub open spec fn separator_at(s: Seq<char>, i: int) -> bool {
    0 <= i && i + 1 < s.len() && s[i] == '_' && s[i + 1] == '_'
}

/// The place of the first separator of `s` at or behind `from`; the length
/// of `s` where there is none.
pub open spec fn first_separator(s: Seq<char>, from: int) -> int
    decreases s.len() - from,
{
    if from < 0 || from + 1 >= s.len() {
        s.len() as int
    } else if s[from] == '_' && s[from + 1] == '_' {
        from
    } else {
        first_separator(s, from + 1)
    }
}

/// The texts between the separators of `s` behind place `from`, cut from left
/// to right.
pub open spec fn split_from(s: Seq<char>, from: int) -> Seq<Seq<char>>
    decreases s.len() - from,
{
    let i = first_separator(s, from);
    if 0 <= from <= i && i + 2 <= s.len() {
        seq![s.subrange(from, i)] + split_from(s, i + 2)
    } else if 0 <= from <= s.len() {
        seq![s.subrange(from, s.len() as int)]
    } else {
        seq![Seq::empty()]
    }
}

/// The texts between the separators of `s`.
pub open spec fn split_fields(s: Seq<char>) -> Seq<Seq<char>> {
    split_from(s, 0)
}

/// Whether `s` holds no separator.
pub open spec fn no_separator(s: Seq<char>) -> bool {
    forall|i: int| !separator_at(s, i)
}

/// Whether `s` can stand in front of a separator and be found again: it
/// holds no separator and does not end in an underscore.
pub open spec fn is_inner_field(s: Seq<char>) -> bool {
    no_separator(s) && (s.len() > 0 ==> s.last() != '_')
}

/// The texts that the character vectors hold.
pub open spec fn texts(parts: Seq<Vec<char>>) -> Seq<Seq<char>> {
    parts.map_values(|p: Vec<char>| p@)
}

/// The place of the first separator of `s` at or behind `from`.
pub fn find_separator(s: &Vec<char>, from: usize) -> (i: usize)
    requires
        from <= s.len(),
    ensures
        i == first_separator(s@, from as int),
        from <= i <= s.len(),
{
    let mut i: usize = from;
    while s.len() - i >= 2
        invariant
            from <= i <= s.len(),
            first_separator(s@, from as int) == first_separator(s@, i as int),
        decreases s.len() - i,
    {
        if s[i] == '_' && s[i + 1] == '_' {
            return i;
        }
        i += 1;
    }
    s.len()
}

/// The texts between the separators of `s`, cut from left to right.
pub fn split(s: &Vec<char>) -> (parts: Vec<Vec<char>>)
    ensures
        texts(parts@) == split_fields(s@),
{
    let mut parts: Vec<Vec<char>> = Vec::new();
    let mut from: usize = 0;
    loop
        invariant_except_break
            from <= s.len(),
            split_fields(s@) == texts(parts@) + split_from(s@, from as int),
        ensures
            texts(parts@) == split_fields(s@),
        decreases s.len() - from,
    {
        let i = find_separator(s, from);
        let ghost before = texts(parts@);
        if i < s.len() {
            proof {
                lemma_first_separator_found(s@, from as int);
            }
            assert(i + 1 < s.len());
            parts.push(slice_chars(s, from, i));
            proof {
                assert(texts(parts@) =~= before.push(s@.subrange(from as int, i as int)));
                assert(split_fields(s@) =~= texts(parts@) + split_from(s@, i + 2));
            }
            from = i + 2;
        } else {
            parts.push(slice_chars(s, from, s.len()));
            proof {
                assert(texts(parts@) =~= before.push(
                    s@.subrange(from as int, s@.len() as int),
                ));
                assert(split_fields(s@) =~= texts(parts@));
            }
            break ;
        }
    }
    parts
}

/// Where a separator is found, one begins there, and none begins between
/// `from` and there.
pub proof fn lemma_first_separator_found(s: Seq<char>, from: int)
    requires
        0 <= from,
    ensures
        from <= first_separator(s, from) || first_separator(s, from) == s.len(),
        first_separator(s, from) < s.len() ==> separator_at(s, first_separator(s, from)),
        forall|j: int| from <= j < first_separator(s, from) ==> !separator_at(s, j),
    decreases s.len() - from,
{
    if from + 1 >= s.len() {
    } else if s[from] == '_' && s[from + 1] == '_' {
    } else {
        lemma_first_separator_found(s, from + 1);
    }
}

/// The first separator at or behind `from` is the one at `at`, where none
/// begins between the two.
pub proof fn lemma_first_separator_is(s: Seq<char>, from: int, at: int)
    requires
        0 <= from <= at,
        separator_at(s, at),
        forall|j: int| from <= j < at ==> !separator_at(s, j),
    ensures
        first_separator(s, from) == at,
    decreases at - from,
{
    if from < at {
        assert(!separator_at(s, from));
        lemma_first_separator_is(s, from + 1, at);
    }
}

/// Where no separator begins at or behind `from`, none is found.
pub proof fn lemma_first_separator_none(s: Seq<char>, from: int)
    requires
        0 <= from,
        forall|j: int| from <= j ==> !separator_at(s, j),
    ensures
        first_separator(s, from) == s.len(),
    decreases s.len() - from,
{
    if from + 1 < s.len() {
        assert(!separator_at(s, from));
        lemma_first_separator_none(s, from + 1);
    }
}

/// A field that holds no separator and does not end in an underscore is cut
/// off whole in front of the separator that follows it.
pub proof fn lemma_split_inner_field(s: Seq<char>, from: int, field: Seq<char>)
    requires
        0 <= from,
        from + field.len() + 2 <= s.len(),
        s.subrange(from, from + field.len()) == field,
        s.subrange(from + field.len(), from + field.len() + 2) == separator(),
        is_inner_field(field),
    ensures
        split_from(s, from) == seq![field] + split_from(s, from + field.len() + 2),
{
    let at = from + field.len();
    let sep = s.subrange(at, at + 2);
    assert(sep[0] == '_' && sep[1] == '_');
    assert(s[at] == sep[0] && s[at + 1] == sep[1]);
    assert forall|j: int| from <= j < at implies !separator_at(s, j) by {
        if separator_at(s, j) {
            assert(s[j] == field[j - from]) by {
                assert(s.subrange(from, at)[j - from] == s[j]);
            }
            if j + 1 < at {
                assert(s.subrange(from, at)[j + 1 - from] == s[j + 1]);
                assert(separator_at(field, j - from));
            } else {
                assert(field.last() == s[j]);
            }
        }
    }
    lemma_first_separator_is(s, from, at);
}

/// A last field that holds no separator is cut off whole.
pub proof fn lemma_split_last_field(s: Seq<char>, from: int, field: Seq<char>)
    requires
        0 <= from,
        from + field.len() == s.len(),
        s.subrange(from, s.len() as int) == field,
        no_separator(field),
    ensures
        split_from(s, from) == seq![field],
{
    assert forall|j: int| from <= j implies !separator_at(s, j) by {
        if separator_at(s, j) {
            assert(s.subrange(from, s.len() as int)[j - from] == s[j]);
            assert(s.subrange(from, s.len() as int)[j + 1 - from] == s[j + 1]);
            assert(separator_at(field, j - from));
        }
    }
    lemma_first_separator_none(s, from);
}

/// The name of one backup run.
#[derive(Debug)]
pub struct BackupRunName {
    pub datetime: DateTime,
    pub hostname: String,
    pub username: String,
    pub backup_name: String,
}

/// The name of a backup run as mathematical data.
pub struct BackupRunNameView {
    pub datetime: DateTime,
    pub hostname: Seq<char>,
    pub username: Seq<char>,
    pub backup_name: Seq<char>,
}

impl View for BackupRunName {
    type V = BackupRunNameView;

    open spec fn view(&self) -> BackupRunNameView {
        BackupRunNameView {
            datetime: self.datetime,
            hostname: self.hostname@,
            username: self.username@,
            backup_name: self.backup_name@,
        }
    }
}

impl BackupRunNameView {
    /// The written form of the name.
    pub open spec fn spec_to_string(self) -> Seq<char> {
        spec_datetimestamp(self.datetime) + separator() + self.hostname + separator()
            + self.username + separator() + self.backup_name
    }

    /// Whether the name can be written and read again: the moment is one of
    /// the calendar, and no field can be mistaken for a separator.
    pub open spec fn wf(self) -> bool {
        &&& self.datetime.wf()
        &&& is_inner_field(self.hostname)
        &&& is_inner_field(self.username)
        &&& no_separator(self.backup_name)
    }
}

/// What reading a run name gives: the four fields between the three
/// separators, the first read as a stamp; `None` where there are fewer or
/// more fields than four or the first is no stamp.
pub open spec fn spec_parse_run_name(s: Seq<char>) -> Option<BackupRunNameView> {
    let parts = split_fields(s);
    if parts.len() != 4 {
        None
    } else {
        match spec_from_datetimestamp(parts[0]) {
            None => None,
            Some(datetime) => Some(
                BackupRunNameView {
                    datetime,
                    hostname: parts[1],
                    username: parts[2],
                    backup_name: parts[3],
                },
            ),
        }
    }
}

impl Clone for BackupRunName {
    fn clone(&self) -> (r: Self)
        ensures
            r == *self,
    {
        BackupRunName {
            datetime: self.datetime,
            hostname: self.hostname.clone(),
            username: self.username.clone(),
            backup_name: self.backup_name.clone(),
        }
    }
}

impl BackupRunName {
    /// The name of the run of `backup_name` made at `datetime` on `hostname`
    /// by `username`.
    pub fn new(datetime: DateTime, hostname: &str, username: &str, backup_name: &str) -> (r: Self)
        ensures
            r@ == (BackupRunNameView {
                datetime,
                hostname: hostname@,
                username: username@,
                backup_name: backup_name@,
            }),
    {
        BackupRunName {
            datetime,
            hostname: String::from_str(hostname),
            username: String::from_str(username),
            backup_name: String::from_str(backup_name),
        }
    }

    /// The written form of the name.
    pub fn to_string(&self) -> (s: String)
        ensures
            s@ == self@.spec_to_string(),
    {
        proof {
            reveal_strlit("__");
            assert("__"@ =~= separator());
        }
        let mut out: Vec<char> = Vec::new();
        push_datetimestamp(&mut out, &self.datetime);
        push_str(&mut out, "__");
        push_str(&mut out, self.hostname.as_str());
        push_str(&mut out, "__");
        push_str(&mut out, self.username.as_str());
        push_str(&mut out, "__");
        push_str(&mut out, self.backup_name.as_str());
        assert(out@ =~= self@.spec_to_string());
        from_chars(&out)
    }

    /// Reads a run name. Fails where `s` has not exactly four fields or its
    /// first field is no stamp.
    pub fn parse(s: &str) -> (r: Result<BackupRunName, Error>)
        ensures
            match r {
                Ok(name) => spec_parse_run_name(s@) == Some(name@),
                Err(e) => spec_parse_run_name(s@) is None && e@ == (ErrorView::RunNameParse {
                    name: s@,
                }),
            },
    {
        let chars = to_chars(s);
        let parts = split(&chars);
        if parts.len() != 4 {
            return Err(Error::RunNameParse { name: String::from_str(s) });
        }
        match parse_datetimestamp(&parts[0]) {
            None => Err(Error::RunNameParse { name: String::from_str(s) }),
            Some(datetime) => Ok(
                BackupRunName {
                    datetime,
                    hostname: from_chars(&parts[1]),
                    username: from_chars(&parts[2]),
                    backup_name: from_chars(&parts[3]),
                },
            ),
        }
    }
}

/// A written stamp holds no underscore, so it is a field that can stand in
/// front of a separator.
pub proof fn lemma_stamp_is_inner_field(dt: DateTime)
    ensures
        is_inner_field(spec_datetimestamp(dt)),
{
    lemma_datetimestamp_chars(dt);
    lemma_datetimestamp_parts(dt);
    let s = spec_datetimestamp(dt);
    assert forall|i: int| !separator_at(s, i) by {
        if separator_at(s, i) {
            let c = s[i];
            assert(c != '_');
        }
    }
    let c = s[22];
    assert(c != '_');
}

/// The written form of a well-formed name falls into its four fields.
pub proof fn lemma_split_of_run_name(name: BackupRunNameView)
    requires
        name.wf(),
    ensures
        split_fields(name.spec_to_string()) == seq![
            spec_datetimestamp(name.datetime),
            name.hostname,
            name.username,
            name.backup_name,
        ],
{
    let stamp = spec_datetimestamp(name.datetime);
    let sep = separator();
    let s = name.spec_to_string();
    lemma_stamp_is_inner_field(name.datetime);
    let a = stamp.len() as int;
    let b = a + 2 + name.hostname.len();
    let c = b + 2 + name.username.len();
    assert(s.len() == c + 2 + name.backup_name.len());
    assert(s.subrange(0, a) =~= stamp);
    assert(s.subrange(a, a + 2) =~= sep);
    assert(s.subrange(a + 2, b) =~= name.hostname);
    assert(s.subrange(b, b + 2) =~= sep);
    assert(s.subrange(b + 2, c) =~= name.username);
    assert(s.subrange(c, c + 2) =~= sep);
    assert(s.subrange(c + 2, s.len() as int) =~= name.backup_name);
    lemma_split_inner_field(s, 0, stamp);
    lemma_split_inner_field(s, a + 2, name.hostname);
    lemma_split_inner_field(s, b + 2, name.username);
    lemma_split_last_field(s, c + 2, name.backup_name);
    assert(split_fields(s) =~= seq![stamp, name.hostname, name.username, name.backup_name]);
}

/// Reading the written form of a well-formed name gives the name back.
#[verifier::spinoff_prover]
#[verifier::rlimit(50)]
pub proof fn lemma_run_name_round_trip(name: BackupRunNameView)
    requires
        name.wf(),
    ensures
        spec_parse_run_name(name.spec_to_string()) == Some(name),
{
    let s = name.spec_to_string();
    let stamp = spec_datetimestamp(name.datetime);
    let parts = split_fields(s);
    assert(parts == seq![stamp, name.hostname, name.username, name.backup_name]) by {
        lemma_split_of_run_name(name);
    }
    assert(spec_from_datetimestamp(stamp) == Some(name.datetime)) by {
        lemma_parse_of_stamp(name.datetime);
    }
    assert(parts.len() == 4);
    assert(parts[0] == stamp);
    assert(parts[1] == name.hostname);
    assert(parts[2] == name.username);
    assert(parts[3] == name.backup_name);
}

/// Of two names with moments of the calendar, the one of the earlier moment
/// comes first in the lexicographic order of their written forms, whatever
/// their other fields hold.
pub proof fn lemma_run_name_order(a: BackupRunNameView, b: BackupRunNameView)
    requires
        a.datetime.wf(),
        b.datetime.wf(),
        a.datetime.spec_before(b.datetime),
    ensures
        lex_lt(a.spec_to_string(), b.spec_to_string()),
{
    let sep = separator();
    let ra = sep + a.hostname + sep + a.username + sep + a.backup_name;
    let rb = sep + b.hostname + sep + b.username + sep + b.backup_name;
    lemma_datetimestamp_order(a.datetime, b.datetime, ra, rb);
    assert(spec_datetimestamp(a.datetime) + ra =~= a.spec_to_string());
    assert(spec_datetimestamp(b.datetime) + rb =~= b.spec_to_string());
}

} // verus!
