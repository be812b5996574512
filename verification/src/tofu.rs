//! Trust on first use: the certificate that a server first shows is remembered,
//! and any other is refused later.
use crate::text::chars_of;
use sha2::{Digest, Sha256};
use vstd::prelude::*;
use vstd::string::{StrSliceExecFns, StringExecFns};

verus! {

/// The SHA-256 digest of a byte sequence.
pub uninterp spec fn sha256(data: Seq<u8>) -> Seq<u8>;

/// `sha2::Sha256` over `data`, from `new` through one `update` to `finalize`: the
/// digest of the data, 32 bytes that depend on nothing else.
#[verifier::external_body]
fn sha256_digest(data: &[u8]) -> (d: Vec<u8>)
    ensures
        d@ == sha256(data@),
        d@.len() == 32,
{
    let mut hasher = Sha256::new();
    hasher.update(data);
    hasher.finalize().to_vec()
}

/// The lower-case hexadecimal digit that stands for `d`, for `d` below sixteen.
pub open spec fn hex_digit(d: nat) -> char {
    if d < 10 {
        (('0' as u32) + d) as char
    } else {
        (('a' as u32) + (d - 10)) as char
    }
}

/// Bytes in hexadecimal: two digits each, the high one first.
pub open spec fn hex_text(s: Seq<u8>) -> Seq<char> {
    Seq::new(
        2 * s.len(),
        |i: int|
            hex_digit(
                if i % 2 == 0 {
                    (s[i / 2] / 16) as nat
                } else {
                    (s[i / 2] % 16) as nat
                },
            ),
    )
}

/// `hex::encode`: two lower-case hexadecimal digits for each byte, the high one
/// first.
#[verifier::external_body]
fn hex_encode(data: &[u8]) -> (s: String)
    ensures
        s@ == hex_text(data@),
{
    hex::encode(data)
}

/// The fingerprint of a certificate: its SHA-256 digest in hexadecimal.
pub open spec fn fingerprint_of(cert: Seq<u8>) -> Seq<char> {
    hex_text(sha256(cert))
}

/// Computes the fingerprint of a certificate.
pub fn compute_fingerprint(cert: &[u8]) -> (s: String)
    ensures
        s@ == fingerprint_of(cert@),
        s@.len() == 64,
        is_word(s@),
{
    let digest = sha256_digest(cert);
    let s = hex_encode(digest.as_slice());
    proof {
        let d = digest@;
        assert forall|i: int| 0 <= i < s@.len() implies !is_space(#[trigger] s@[i]) by {
            assert(s@[i] == hex_digit((d[i / 2] / 16) as nat) || s@[i] == hex_digit(
                (d[i / 2] % 16) as nat,
            ));
        }
    }
    s
}

/// Whether a character is white space in Unicode.
pub open spec fn is_space(c: char) -> bool {
    let n = c as u32;
    ||| 0x09 <= n <= 0x0d
    ||| n == 0x20
    ||| n == 0x85
    ||| n == 0xa0
    ||| n == 0x1680
    ||| 0x2000 <= n <= 0x200a
    ||| n == 0x2028
    ||| n == 0x2029
    ||| n == 0x202f
    ||| n == 0x205f
    ||| n == 0x3000
}

fn is_white_space(c: char) -> (b: bool)
    ensures
        b == is_space(c),
{
    let n: u32 = c as u32;
    (0x09 <= n && n <= 0x0d) || n == 0x20 || n == 0x85 || n == 0xa0 || n == 0x1680 || (0x2000 <= n
        && n <= 0x200a) || n == 0x2028 || n == 0x2029 || n == 0x202f || n == 0x205f || n == 0x3000
}

/// Number of white space characters at the start.
pub open spec fn blank(s: Seq<char>) -> nat
    decreases s.len(),
{
    if s.len() == 0 || !is_space(s[0]) {
        0
    } else {
        1 + blank(s.skip(1))
    }
}

/// Length of the word at the start: of the characters that are no white space.
pub open spec fn word(s: Seq<char>) -> nat
    decreases s.len(),
{
    if s.len() == 0 || is_space(s[0]) {
        0
    } else {
        1 + word(s.skip(1))
    }
}

/// Length of the first line, without its end.
pub open spec fn line_len(s: Seq<char>) -> nat
    decreases s.len(),
{
    if s.len() == 0 || s[0] == '\n' {
        0
    } else {
        1 + line_len(s.skip(1))
    }
}

/// The text behind the white space at the start.
pub open spec fn trimmed(s: Seq<char>) -> Seq<char> {
    s.skip(blank(s) as int)
}

/// The text behind the word at the start.
pub open spec fn behind_word(s: Seq<char>) -> Seq<char> {
    s.skip(word(s) as int)
}

/// The first two words of a line, where it has two.
pub open spec fn line_entry(s: Seq<char>) -> Option<(Seq<char>, Seq<char>)> {
    let a = trimmed(s);
    let b = trimmed(behind_word(a));
    if word(b) > 0 {
        Some((a.take(word(a) as int), b.take(word(b) as int)))
    } else {
        None
    }
}

/// The hosts in a text, added to those known: one in each line of two words or
/// more, a later line over an earlier one.
pub open spec fn hosts_in(known: Map<Seq<char>, Seq<char>>, s: Seq<char>) -> Map<
    Seq<char>,
    Seq<char>,
>
    decreases s.len(),
    via hosts_in_decreases
{
    if s.len() == 0 {
        known
    } else {
        let n = line_len(s) as int;
        let after = match line_entry(s.take(n)) {
            Some((name, fingerprint)) => known.insert(name, fingerprint),
            None => known,
        };
        if n < s.len() {
            hosts_in(after, s.skip(n + 1))
        } else {
            after
        }
    }
}

#[via_fn]
proof fn hosts_in_decreases(known: Map<Seq<char>, Seq<char>>, s: Seq<char>) {
    lemma_lengths(s);
}

/// The lengths at the start of a text are no longer than it.
proof fn lemma_lengths(s: Seq<char>)
    ensures
        blank(s) <= s.len(),
        word(s) <= s.len(),
        line_len(s) <= s.len(),
    decreases s.len(),
{
    if s.len() > 0 {
        lemma_lengths(s.skip(1));
    }
}

/// The text of a list of hosts: a line for each, name and fingerprint with a
/// space between them.
pub open spec fn hosts_text(e: Seq<(Seq<char>, Seq<char>)>) -> Seq<char>
    decreases e.len(),
{
    if e.len() == 0 {
        Seq::empty()
    } else if e.len() == 1 {
        host_line(e[0])
    } else {
        host_line(e[0]) + seq!['\n'] + hosts_text(e.skip(1))
    }
}

/// The line of one host.
pub open spec fn host_line(h: (Seq<char>, Seq<char>)) -> Seq<char> {
    h.0 + seq![' '] + h.1
}

/// A list of hosts as a map from name to fingerprint.
pub open spec fn map_of(e: Seq<(Seq<char>, Seq<char>)>) -> Map<Seq<char>, Seq<char>>
    decreases e.len(),
{
    if e.len() == 0 {
        Map::empty()
    } else {
        map_of(e.drop_last()).insert(e.last().0, e.last().1)
    }
}

/// Whether no name is listed twice.
pub open spec fn distinct_names(e: Seq<(Seq<char>, Seq<char>)>) -> bool {
    forall|i: int, j: int| 0 <= i < j < e.len() ==> (#[trigger] e[i]).0 != (#[trigger] e[j]).0
}

/// The map of a list of distinct names holds exactly what is listed.
proof fn lemma_map_of(e: Seq<(Seq<char>, Seq<char>)>)
    requires
        distinct_names(e),
    ensures
        forall|i: int|
            0 <= i < e.len() ==> map_of(e).contains_key((#[trigger] e[i]).0) && map_of(e)[e[i].0]
                == e[i].1,
        forall|k: Seq<char>| #[trigger]
            map_of(e).contains_key(k) ==> exists|i: int|
                0 <= i < e.len() && (#[trigger] e[i]).0 == k,
    decreases e.len(),
{
    if e.len() > 0 {
        let t = e.drop_last();
        assert forall|i: int, j: int| 0 <= i < j < t.len() implies (#[trigger] t[i]).0 != (
        #[trigger] t[j]).0 by {
            assert(e[i].0 != e[j].0);
        }
        lemma_map_of(t);
        let n = e.len() - 1;
        assert forall|i: int| 0 <= i < e.len() implies map_of(e).contains_key((#[trigger] e[i]).0)
            && map_of(e)[e[i].0] == e[i].1 by {
            if i < n {
                assert(t[i] == e[i]);
                assert(e[i].0 != e[n].0);
            }
        }
        assert forall|k: Seq<char>| #[trigger] map_of(e).contains_key(k) implies exists|i: int|
            0 <= i < e.len() && (#[trigger] e[i]).0 == k by {
            if k == e[n].0 {
            } else {
                assert(map_of(t).contains_key(k));
                let i = choose|i: int| 0 <= i < t.len() && (#[trigger] t[i]).0 == k;
                assert(e[i].0 == k);
            }
        }
    }
}

/// Changing the fingerprint of a listed host changes the map in that place.
proof fn lemma_map_of_update(e: Seq<(Seq<char>, Seq<char>)>, i: int, f: Seq<char>)
    requires
        distinct_names(e),
        0 <= i < e.len(),
    ensures
        map_of(e.update(i, (e[i].0, f))) == map_of(e).insert(e[i].0, f),
        distinct_names(e.update(i, (e[i].0, f))),
    decreases e.len(),
{
    let u = e.update(i, (e[i].0, f));
    assert forall|a: int, b: int| 0 <= a < b < u.len() implies (#[trigger] u[a]).0 != (
    #[trigger] u[b]).0 by {
        assert(e[a].0 != e[b].0);
    }
    let t = e.drop_last();
    let n = e.len() - 1;
    if i == n {
        assert(u.drop_last() =~= t);
        assert(map_of(u) =~= map_of(e).insert(e[i].0, f));
    } else {
        assert forall|a: int, b: int| 0 <= a < b < t.len() implies (#[trigger] t[a]).0 != (
        #[trigger] t[b]).0 by {
            assert(e[a].0 != e[b].0);
        }
        lemma_map_of_update(t, i, f);
        assert(u.drop_last() =~= t.update(i, (t[i].0, f)));
        assert(e[i].0 != e[n].0);
        assert(map_of(u) =~= map_of(e).insert(e[i].0, f));
    }
}

/// A host whose certificate is known.
#[derive(Debug, Clone)]
pub struct KnownHost {
    pub name: String,
    pub fingerprint: String,
}

/// What became of a certificate that a server showed.
#[derive(Debug, Clone, Copy, PartialEq, Eq, Structural)]
pub enum Verdict {
    /// It is the one that was remembered.
    Verified,
    /// The server was not known; the certificate is remembered now.
    FirstUse,
    /// It is not the one that was remembered: it is refused.
    Mismatch,
}

/// How the certificate of a server is judged, given what is known.
pub open spec fn verdict(
    known: Map<Seq<char>, Seq<char>>,
    name: Seq<char>,
    fingerprint: Seq<char>,
) -> Verdict {
    if !known.contains_key(name) {
        Verdict::FirstUse
    } else if known[name] == fingerprint {
        Verdict::Verified
    } else {
        Verdict::Mismatch
    }
}

/// What is known after the certificate of a server was judged: only a server
/// that was not known is added.
pub open spec fn learned(
    known: Map<Seq<char>, Seq<char>>,
    name: Seq<char>,
    fingerprint: Seq<char>,
) -> Map<Seq<char>, Seq<char>> {
    if known.contains_key(name) {
        known
    } else {
        known.insert(name, fingerprint)
    }
}

/// The hosts whose certificates are known, each name once.
#[derive(Debug)]
pub struct KnownHosts {
    entries: Vec<KnownHost>,
}

impl View for KnownHosts {
    type V = Map<Seq<char>, Seq<char>>;

    /// From name to fingerprint.
    open spec fn view(&self) -> Map<Seq<char>, Seq<char>> {
        map_of(self.list())
    }
}

impl KnownHosts {
    #[verifier::type_invariant]
    closed spec fn inv(self) -> bool {
        distinct_names(self.list())
    }

    /// The hosts in the order in which they were learned.
    pub closed spec fn list(self) -> Seq<(Seq<char>, Seq<char>)> {
        self.entries@.map_values(|h: KnownHost| (h.name@, h.fingerprint@))
    }

    /// No host.
    pub fn new() -> (r: Self)
        ensures
            r@ == Map::<Seq<char>, Seq<char>>::empty(),
            r.list().len() == 0,
    {
        let entries: Vec<KnownHost> = Vec::new();
        KnownHosts { entries }
    }

    /// The place of a name in the list.
    fn find(&self, name: &String) -> (r: Option<usize>)
        ensures
            match r {
                Some(i) => i < self.entries@.len() && self.entries@[i as int].name@ == name@
                    && self@.contains_key(name@) && self@[name@]
                    == self.entries@[i as int].fingerprint@,
                None => !self@.contains_key(name@) && forall|j: int|
                    0 <= j < self.entries@.len() ==> (#[trigger] self.entries@[j]).name@ != name@,
            },
    {
        proof {
            use_type_invariant(self);
            lemma_map_of(self.list());
        }
        let mut i: usize = 0;
        while i < self.entries.len()
            invariant
                i <= self.entries@.len(),
                forall|j: int| 0 <= j < i ==> (#[trigger] self.entries@[j]).name@ != name@,
                forall|j: int|
                    0 <= j < self.list().len() ==> self@.contains_key((#[trigger] self.list()[j]).0)
                        && self@[self.list()[j].0] == self.list()[j].1,
            decreases self.entries@.len() - i,
        {
            if self.entries[i].name == *name {
                assert(self.list()[i as int] == (
                    self.entries@[i as int].name@,
                    self.entries@[i as int].fingerprint@,
                ));
                return Some(i);
            }
            i += 1;
        }
        proof {
            if self@.contains_key(name@) {
                let k = choose|k: int|
                    0 <= k < self.list().len() && (#[trigger] self.list()[k]).0 == name@;
                assert(self.entries@[k].name@ == name@);
            }
        }
        None
    }

    /// The hosts with one more, or with another fingerprint for one.
    fn with(self, name: String, fingerprint: String) -> (r: Self)
        ensures
            r@ == self@.insert(name@, fingerprint@),
    {
        proof {
            use_type_invariant(&self);
        }
        let ghost before = self.list();
        let place = self.find(&name);
        let mut entries = self.entries;
        match place {
            Some(i) => {
                let ghost f = fingerprint@;
                entries.set(i, KnownHost { name, fingerprint });
                proof {
                    lemma_map_of_update(before, i as int, f);
                    assert(entries@.map_values(|h: KnownHost| (h.name@, h.fingerprint@))
                        =~= before.update(i as int, (before[i as int].0, f)));
                }
            },
            None => {
                let ghost h = (name@, fingerprint@);
                entries.push(KnownHost { name, fingerprint });
                proof {
                    let after = entries@.map_values(|h: KnownHost| (h.name@, h.fingerprint@));
                    assert(after =~= before.push(h));
                    assert(after.drop_last() =~= before);
                    assert forall|i: int, j: int| 0 <= i < j < after.len() implies (
                    #[trigger] after[i]).0 != (#[trigger] after[j]).0 by {
                        assert(before[i] == (
                            self.entries@[i].name@,
                            self.entries@[i].fingerprint@,
                        ));
                        if j < before.len() {
                            assert(before[i].0 != before[j].0);
                        }
                    }
                }
            },
        }
        KnownHosts { entries }
    }

    /// Judges the certificate of a server by its fingerprint.
    pub fn verify(&mut self, server_name: &str, fingerprint: &str) -> (v: Verdict)
        ensures
            v == verdict(old(self)@, server_name@, fingerprint@),
            final(self)@ == learned(old(self)@, server_name@, fingerprint@),
            old(self)@.contains_key(server_name@) ==> *final(self) == *old(self),
    {
        let name = String::from_str(server_name);
        let shown = String::from_str(fingerprint);
        match self.find(&name) {
            Some(i) => if self.entries[i].fingerprint == shown {
                Verdict::Verified
            } else {
                Verdict::Mismatch
            },
            None => {
                let mut hosts = KnownHosts::new();
                std::mem::swap(&mut hosts, self);
                *self = hosts.with(name, shown);
                Verdict::FirstUse
            },
        }
    }

    /// Judges the certificate of a server.
    pub fn verify_certificate(&mut self, server_name: &str, cert: &[u8]) -> (v: Verdict)
        ensures
            v == verdict(old(self)@, server_name@, fingerprint_of(cert@)),
            final(self)@ == learned(old(self)@, server_name@, fingerprint_of(cert@)),
            is_word(fingerprint_of(cert@)),
            old(self)@.contains_key(server_name@) ==> *final(self) == *old(self),
    {
        let fingerprint = compute_fingerprint(cert);
        self.verify(server_name, fingerprint.as_str())
    }

    /// Writes the hosts out, a line for each. Where names and fingerprints are
    /// words, reading the text gives the hosts back.
    pub fn to_text(&self) -> (s: String)
        ensures
            s@ == hosts_text(self.list()),
            distinct_names(self.list()),
            all_words(self@) ==> hosts_in(Map::empty(), s@) == self@,
    {
        proof {
            use_type_invariant(self);
            if all_words(self@) {
                law_known_hosts_survive_storage(self.list());
            }
        }
        let mut s = String::new();
        let n: usize = self.entries.len();
        let mut i: usize = n;
        let ghost all = self.list();
        while i > 0
            invariant
                i <= n,
                n == self.entries@.len(),
                all == self.list(),
                s@ == hosts_text(all.skip(i as int)),
            decreases i,
        {
            i -= 1;
            let mut line = String::from_str(self.entries[i].name.as_str());
            line.append(" ");
            line.append(self.entries[i].fingerprint.as_str());
            if i + 1 < n {
                line.append("\n");
            }
            line.append(s.as_str());
            proof {
                reveal_strlit(" ");
                reveal_strlit("\n");
                let rest = all.skip(i as int);
                assert(rest.skip(1) =~= all.skip(i + 1));
                assert(rest[0] == all[i as int]);
                assert(line@ =~= hosts_text(rest));
            }
            s = line;
        }
        assert(all.skip(0) =~= all);
        s
    }

    /// Reads hosts back from their text.
    pub fn from_text(text: &str) -> (r: Self)
        ensures
            r@ == hosts_in(Map::empty(), text@),
    {
        let cs = chars_of(text);
        let ghost all = text@;
        let mut hosts = KnownHosts::new();
        let mut pos: usize = 0;
        assert(all.skip(0) =~= all);
        while pos < cs.len()
            invariant
                pos <= cs@.len(),
                cs@ == all,
                all == text@,
                hosts_in(hosts@, all.skip(pos as int)) == hosts_in(Map::empty(), all),
            decreases cs@.len() - pos,
        {
            let ghost s = all.skip(pos as int);
            let end: usize = line_end(&cs, pos);
            let ghost line = s.take(end - pos);
            assert(line =~= all.subrange(pos as int, end as int));
            let a: usize = skip_blank(&cs, pos, end);
            let b: usize = skip_word(&cs, a, end);
            let c: usize = skip_blank(&cs, b, end);
            let d: usize = skip_word(&cs, c, end);
            proof {
                assert(trimmed(line) =~= all.subrange(a as int, end as int));
                assert(behind_word(trimmed(line)) =~= all.subrange(b as int, end as int));
                assert(trimmed(behind_word(trimmed(line))) =~= all.subrange(c as int, end as int));
            }
            if c < d {
                let name = String::from_str(text.substring_char(a, b));
                let fingerprint = String::from_str(text.substring_char(c, d));
                assert(name@ =~= all.subrange(a as int, end as int).take(b - a));
                assert(fingerprint@ =~= all.subrange(c as int, end as int).take(d - c));
                hosts = hosts.with(name, fingerprint);
            }
            if end < cs.len() {
                assert(s.skip(end - pos + 1) =~= all.skip(end + 1));
                pos = end + 1;
            } else {
                pos = end;
                assert(all.skip(pos as int).len() == 0);
            }
        }
        assert(all.skip(pos as int).len() == 0);
        hosts
    }
}

/// Where the line that starts at `pos` ends.
fn line_end(cs: &Vec<char>, pos: usize) -> (end: usize)
    requires
        pos <= cs@.len(),
    ensures
        end == pos + line_len(cs@.skip(pos as int)),
        pos <= end <= cs@.len(),
{
    let mut i: usize = pos;
    while i < cs.len() && cs[i] != '\n'
        invariant
            pos <= i <= cs@.len(),
            line_len(cs@.skip(pos as int)) == (i - pos) + line_len(cs@.skip(i as int)),
        decreases cs@.len() - i,
    {
        assert(cs@.skip(i as int).skip(1) =~= cs@.skip(i + 1));
        i += 1;
    }
    i
}

/// Where the white space that starts at `pos` ends, at `end` the latest.
fn skip_blank(cs: &Vec<char>, pos: usize, end: usize) -> (r: usize)
    requires
        pos <= end <= cs@.len(),
    ensures
        r == pos + blank(cs@.subrange(pos as int, end as int)),
        pos <= r <= end,
{
    let mut i: usize = pos;
    while i < end && is_white_space(cs[i])
        invariant
            pos <= i <= end <= cs@.len(),
            blank(cs@.subrange(pos as int, end as int)) == (i - pos) + blank(
                cs@.subrange(i as int, end as int),
            ),
        decreases end - i,
    {
        assert(cs@.subrange(i as int, end as int).skip(1) =~= cs@.subrange(i + 1, end as int));
        i += 1;
    }
    i
}

/// Where the word that starts at `pos` ends, at `end` the latest.
fn skip_word(cs: &Vec<char>, pos: usize, end: usize) -> (r: usize)
    requires
        pos <= end <= cs@.len(),
    ensures
        r == pos + word(cs@.subrange(pos as int, end as int)),
        pos <= r <= end,
{
    let mut i: usize = pos;
    while i < end && !is_white_space(cs[i])
        invariant
            pos <= i <= end <= cs@.len(),
            word(cs@.subrange(pos as int, end as int)) == (i - pos) + word(
                cs@.subrange(i as int, end as int),
            ),
        decreases end - i,
    {
        assert(cs@.subrange(i as int, end as int).skip(1) =~= cs@.subrange(i + 1, end as int));
        i += 1;
    }
    i
}

/// Whether a text is one word: not empty and without white space.
pub open spec fn is_word(s: Seq<char>) -> bool {
    s.len() > 0 && forall|i: int| 0 <= i < s.len() ==> !is_space(#[trigger] s[i])
}

/// A word ends where its first white space stands.
proof fn lemma_word_prefix(w: Seq<char>, rest: Seq<char>)
    requires
        forall|i: int| 0 <= i < w.len() ==> !is_space(#[trigger] w[i]),
        rest.len() > 0 ==> is_space(rest[0]),
    ensures
        word(w + rest) == w.len(),
    decreases w.len(),
{
    let s = w + rest;
    if w.len() == 0 {
        assert(s =~= rest);
    } else {
        assert(s.skip(1) =~= w.skip(1) + rest);
        assert(s[0] == w[0]);
        assert forall|i: int| 0 <= i < w.skip(1).len() implies !is_space(
            #[trigger] w.skip(1)[i],
        ) by {
            assert(w.skip(1)[i] == w[i + 1]);
        }
        lemma_word_prefix(w.skip(1), rest);
    }
}

/// A line without line ends in it ends at the first line end behind it.
proof fn lemma_line_prefix(l: Seq<char>, rest: Seq<char>)
    requires
        forall|i: int| 0 <= i < l.len() ==> #[trigger] l[i] != '\n',
        rest.len() > 0 ==> rest[0] == '\n',
    ensures
        line_len(l + rest) == l.len(),
    decreases l.len(),
{
    let s = l + rest;
    if l.len() == 0 {
        assert(s =~= rest);
    } else {
        assert(s.skip(1) =~= l.skip(1) + rest);
        assert(s[0] == l[0]);
        assert forall|i: int| 0 <= i < l.skip(1).len() implies #[trigger] l.skip(1)[i] != '\n' by {
            assert(l.skip(1)[i] == l[i + 1]);
        }
        lemma_line_prefix(l.skip(1), rest);
    }
}

/// The line of a host reads back as the host.
proof fn lemma_host_line(h: (Seq<char>, Seq<char>))
    requires
        is_word(h.0),
        is_word(h.1),
    ensures
        line_entry(host_line(h)) == Some(h),
        forall|i: int| 0 <= i < host_line(h).len() ==> #[trigger] host_line(h)[i] != '\n',
{
    let line = host_line(h);
    let tail = seq![' '] + h.1;
    assert(line =~= h.0 + tail);
    assert(line[0] == h.0[0]);
    assert(blank(line) == 0);
    assert(trimmed(line) =~= line);
    lemma_word_prefix(h.0, tail);
    assert(behind_word(line) =~= tail);
    assert(tail.skip(1) =~= h.1);
    assert(tail[0] == ' ');
    assert(!is_space(h.1[0]));
    assert(blank(h.1) == 0);
    assert(blank(tail) == 1);
    assert(trimmed(tail) =~= h.1);
    lemma_word_prefix(h.1, Seq::empty());
    assert(h.1 + Seq::<char>::empty() =~= h.1);
    assert(h.1.take(h.1.len() as int) =~= h.1);
    assert(line.take(h.0.len() as int) =~= h.0);
    assert forall|i: int| 0 <= i < line.len() implies #[trigger] line[i] != '\n' by {
        if i < h.0.len() {
            assert(!is_space(h.0[i]));
        } else if i > h.0.len() {
            assert(!is_space(h.1[i - h.0.len() - 1]));
        }
    }
}

/// Reading the text of a list adds its hosts to those known, in order.
proof fn lemma_hosts_text_read(known: Map<Seq<char>, Seq<char>>, e: Seq<(Seq<char>, Seq<char>)>)
    requires
        forall|i: int| 0 <= i < e.len() ==> is_word((#[trigger] e[i]).0) && is_word(e[i].1),
    ensures
        hosts_in(known, hosts_text(e)) == known.union_prefer_right(map_of(e)),
    decreases e.len(),
{
    let s = hosts_text(e);
    if e.len() == 0 {
        assert(known.union_prefer_right(map_of(e)) =~= known);
    } else {
        let h = e[0];
        let line = host_line(h);
        lemma_host_line(h);
        let rest = e.skip(1);
        let after = known.insert(h.0, h.1);
        if e.len() == 1 {
            lemma_line_prefix(line, Seq::empty());
            assert(line + Seq::<char>::empty() =~= line);
            assert(s.take(line.len() as int) =~= line);
            assert(map_of(e.drop_last()) =~= Map::empty());
            assert(map_of(e) =~= map![h.0 => h.1]);
            assert(known.union_prefer_right(map_of(e)) =~= after);
        } else {
            let tail = seq!['\n'] + hosts_text(rest);
            assert(s =~= line + tail);
            lemma_line_prefix(line, tail);
            assert(s.take(line.len() as int) =~= line);
            assert(s.skip(line.len() as int + 1) =~= hosts_text(rest));
            assert forall|i: int| 0 <= i < rest.len() implies is_word((#[trigger] rest[i]).0)
                && is_word(rest[i].1) by {
                assert(rest[i] == e[i + 1]);
            }
            lemma_hosts_text_read(after, rest);
            lemma_map_of_front(e);
            assert(known.union_prefer_right(map_of(e)) =~= after.union_prefer_right(map_of(rest)));
        }
    }
}

/// The map of a list by its first element and the rest.
proof fn lemma_map_of_front(e: Seq<(Seq<char>, Seq<char>)>)
    requires
        e.len() > 0,
    ensures
        map_of(e) == map![e[0].0 => e[0].1].union_prefer_right(map_of(e.skip(1))),
    decreases e.len(),
{
    let first = map![e[0].0 => e[0].1];
    if e.len() == 1 {
        assert(map_of(e.drop_last()) =~= Map::empty());
        assert(map_of(e.skip(1)) =~= Map::empty());
        assert(map_of(e) =~= first.union_prefer_right(map_of(e.skip(1))));
    } else {
        let t = e.drop_last();
        lemma_map_of_front(t);
        assert(t.skip(1) =~= e.skip(1).drop_last());
        assert(e.skip(1).last() == e.last());
        assert(map_of(e) =~= first.union_prefer_right(map_of(e.skip(1))));
    }
}

/// Whether all names and fingerprints are words.
pub open spec fn all_words(known: Map<Seq<char>, Seq<char>>) -> bool {
    forall|k: Seq<char>| #[trigger] known.contains_key(k) ==> is_word(k) && is_word(known[k])
}

/// Hosts that are written out are read back as they were, where no name is listed
/// twice and names and fingerprints are single words.
pub proof fn law_known_hosts_survive_storage(e: Seq<(Seq<char>, Seq<char>)>)
    requires
        distinct_names(e),
        all_words(map_of(e)),
    ensures
        hosts_in(Map::empty(), hosts_text(e)) == map_of(e),
{
    lemma_map_of(e);
    assert forall|i: int| 0 <= i < e.len() implies is_word((#[trigger] e[i]).0) && is_word(
        e[i].1,
    ) by {
        assert(map_of(e).contains_key(e[i].0));
    }
    lemma_hosts_text_read(Map::empty(), e);
    assert(Map::<Seq<char>, Seq<char>>::empty().union_prefer_right(map_of(e)) =~= map_of(e));
}

/// Learning a server by a word of a fingerprint leaves all names and fingerprints
/// words, so that what is learned survives storage too.
pub proof fn law_learning_keeps_words(
    known: Map<Seq<char>, Seq<char>>,
    name: Seq<char>,
    fingerprint: Seq<char>,
)
    requires
        all_words(known),
        is_word(name),
        is_word(fingerprint),
    ensures
        all_words(learned(known, name, fingerprint)),
{
}

/// What a server shows first is trusted from then on, and nothing else: the same
/// fingerprint is verified, any other is refused, and neither changes what is
/// known. Other servers are not concerned.
pub proof fn law_first_use_decides(
    known: Map<Seq<char>, Seq<char>>,
    name: Seq<char>,
    first: Seq<char>,
    later: Seq<char>,
)
    requires
        !known.contains_key(name),
    ensures
        verdict(known, name, first) == Verdict::FirstUse,
        ({
            let after = learned(known, name, first);
            &&& verdict(after, name, later) == (if later == first {
                Verdict::Verified
            } else {
                Verdict::Mismatch
            })
            &&& learned(after, name, later) == after
            &&& forall|other: Seq<char>, f: Seq<char>|
                other != name ==> #[trigger] verdict(after, other, f) == verdict(known, other, f)
        }),
{
}

/// A byte is written as two digits, of which the first counts sixteen times as much;
/// digits are 0 to 9 and a to f.
pub proof fn law_hexadecimal_digits_make_up_the_bytes(s: Seq<u8>, i: int)
    requires
        0 <= i < s.len(),
    ensures
        hex_text(s).len() == 2 * s.len(),
        ({
            let value = |c: char|
                if c as int <= 0x39 {
                    c as int - 0x30
                } else {
                    c as int - 0x61 + 10
                };
            let (high, low) = (hex_text(s)[2 * i], hex_text(s)[2 * i + 1]);
            &&& s[i] == 16 * value(high) + value(low)
            &&& 0x30 <= high as int <= 0x39 || 0x61 <= high as int <= 0x66
            &&& 0x30 <= low as int <= 0x39 || 0x61 <= low as int <= 0x66
        }),
{
    assert((2 * i) / 2 == i && (2 * i) % 2 == 0);
    assert((2 * i + 1) / 2 == i && (2 * i + 1) % 2 == 1);
}

/// Two certificates have the same fingerprint exactly if they have the same digest.
pub proof fn law_fingerprints_tell_digests_apart(a: Seq<u8>, b: Seq<u8>)
    ensures
        fingerprint_of(a) == fingerprint_of(b) <==> sha256(a) == sha256(b),
{
    let (s, t) = (sha256(a), sha256(b));
    if hex_text(s) == hex_text(t) {
        assert(hex_text(s).len() == 2 * s.len());
        assert(hex_text(t).len() == 2 * t.len());
        assert forall|i: int| 0 <= i < s.len() implies s[i] == t[i] by {
            law_hexadecimal_digits_make_up_the_bytes(s, i);
            law_hexadecimal_digits_make_up_the_bytes(t, i);
        }
        assert(s =~= t);
    }
}

/// A certificate is verified exactly if its server is known by that fingerprint, and
/// refused exactly if it is known by another. Nothing is learned but of a server that
/// was not known, and nothing is forgotten.
pub proof fn law_known_servers_are_held_to_their_fingerprint(
    known: Map<Seq<char>, Seq<char>>,
    name: Seq<char>,
    fingerprint: Seq<char>,
    other: Seq<char>,
)
    ensures
        verdict(known, name, fingerprint) == Verdict::FirstUse <==> !known.contains_key(name),
        verdict(known, name, fingerprint) == Verdict::Verified <==> known.contains_key(name)
            && known[name] == fingerprint,
        verdict(known, name, fingerprint) == Verdict::Mismatch <==> known.contains_key(name)
            && known[name] != fingerprint,
        ({
            let after = learned(known, name, fingerprint);
            &&& known.contains_key(other) ==> after.contains_key(other) && after[other]
                == known[other]
            &&& after.contains_key(other) ==> known.contains_key(other) || (other == name
                && after[other] == fingerprint)
            &&& after.contains_key(name)
        }),
{
}

/// White space is what Unicode calls so: tabs, line ends and blanks of all kinds, and
/// no visible character.
pub proof fn law_white_space(c: char)
    ensures
        is_space(c) <==> {
            let n = c as int;
            n == 9 || n == 10 || n == 11 || n == 12 || n == 13 || n == 32 || n == 0x85 || n == 0xA0
                || n == 0x1680 || (0x2000 <= n && n < 0x200B) || n == 0x2028 || n == 0x2029 || n
                == 0x202F || n == 0x205F || n == 0x3000
        },
{
}

/// White space in front adds to what is in front already.
proof fn lemma_blank_prefix(spaces: Seq<char>, rest: Seq<char>)
    requires
        forall|i: int| 0 <= i < spaces.len() ==> is_space(#[trigger] spaces[i]),
    ensures
        blank(spaces + rest) == spaces.len() + blank(rest),
    decreases spaces.len(),
{
    let s = spaces + rest;
    if spaces.len() == 0 {
        assert(s =~= rest);
    } else {
        assert(s.skip(1) =~= spaces.skip(1) + rest);
        assert(s[0] == spaces[0]);
        assert forall|i: int| 0 <= i < spaces.skip(1).len() implies is_space(
            #[trigger] spaces.skip(1)[i],
        ) by {
            assert(spaces.skip(1)[i] == spaces[i + 1]);
        }
        lemma_blank_prefix(spaces.skip(1), rest);
    }
}

/// A line of two words, with white space around them and anything behind, names a
/// server and its fingerprint.
pub proof fn law_line_names_server_and_fingerprint(
    lead: Seq<char>,
    name: Seq<char>,
    between: Seq<char>,
    fingerprint: Seq<char>,
    rest: Seq<char>,
)
    requires
        name.len() > 0,
        between.len() > 0,
        fingerprint.len() > 0,
        forall|i: int| 0 <= i < lead.len() ==> is_space(#[trigger] lead[i]),
        forall|i: int| 0 <= i < name.len() ==> !is_space(#[trigger] name[i]),
        forall|i: int| 0 <= i < between.len() ==> is_space(#[trigger] between[i]),
        forall|i: int| 0 <= i < fingerprint.len() ==> !is_space(#[trigger] fingerprint[i]),
        rest.len() > 0 ==> is_space(rest[0]),
    ensures
        line_entry(lead + name + between + fingerprint + rest) == Some((name, fingerprint)),
{
    let end = fingerprint + rest;
    let tail = between + end;
    let front = name + tail;
    let line = lead + name + between + fingerprint + rest;
    assert(line =~= lead + front);
    lemma_blank_prefix(lead, front);
    assert(front[0] == name[0]);
    assert(trimmed(line) =~= front);
    assert(tail[0] == between[0]);
    lemma_word_prefix(name, tail);
    assert(behind_word(front) =~= tail);
    lemma_blank_prefix(between, end);
    assert(end[0] == fingerprint[0]);
    assert(trimmed(tail) =~= end);
    lemma_word_prefix(fingerprint, rest);
    assert(end.take(fingerprint.len() as int) =~= fingerprint);
    assert(front.take(name.len() as int) =~= name);
}

/// A line of one word or none, with white space around it, names no server.
pub proof fn law_short_lines_name_nobody(lead: Seq<char>, name: Seq<char>, behind: Seq<char>)
    requires
        forall|i: int| 0 <= i < lead.len() ==> is_space(#[trigger] lead[i]),
        forall|i: int| 0 <= i < name.len() ==> !is_space(#[trigger] name[i]),
        forall|i: int| 0 <= i < behind.len() ==> is_space(#[trigger] behind[i]),
        name.len() > 0 || behind.len() == 0,
    ensures
        line_entry(lead + name + behind) is None,
{
    let front = name + behind;
    let line = lead + name + behind;
    assert(line =~= lead + front);
    lemma_blank_prefix(lead, front);
    if name.len() > 0 {
        assert(front[0] == name[0]);
    }
    assert(blank(front) == 0);
    assert(trimmed(line) =~= front);
    lemma_word_prefix(name, behind);
    assert(behind_word(front) =~= behind);
    assert(behind + Seq::<char>::empty() =~= behind);
    lemma_blank_prefix(behind, Seq::empty());
    assert(trimmed(behind) =~= Seq::empty());
    assert(word(trimmed(behind)) == 0);
}

/// Known hosts are written line by line, each as its name, a blank and its
/// fingerprint, with a line end between two.
pub proof fn law_hosts_are_written_line_by_line(
    h: (Seq<char>, Seq<char>),
    e: Seq<(Seq<char>, Seq<char>)>,
)
    ensures
        hosts_text(seq![h]) == h.0 + seq![' '] + h.1,
        e.len() > 0 ==> hosts_text(seq![h] + e) == h.0 + seq![' '] + h.1 + seq!['\n'] + hosts_text(e),
        hosts_text(Seq::empty()) == Seq::<char>::empty(),
{
    assert((seq![h] + e).skip(1) =~= e);
}

/// A text of known hosts is read line by line: a line that names a server adds it, over
/// what an earlier line said of it, and any other line is passed over.
pub proof fn law_hosts_are_read_line_by_line(
    known: Map<Seq<char>, Seq<char>>,
    line: Seq<char>,
    rest: Seq<char>,
)
    requires
        forall|i: int| 0 <= i < line.len() ==> #[trigger] line[i] != '\n',
    ensures
        hosts_in(known, line + seq!['\n'] + rest) == hosts_in(
            match line_entry(line) {
                Some((name, fingerprint)) => known.insert(name, fingerprint),
                None => known,
            },
            rest,
        ),
        hosts_in(known, Seq::empty()) == known,
{
    let s = line + seq!['\n'] + rest;
    let tail = seq!['\n'] + rest;
    assert(s =~= line + tail);
    lemma_line_prefix(line, tail);
    assert(s.take(line.len() as int) =~= line);
    assert(s.skip(line.len() as int + 1) =~= rest);
}

} // verus!
