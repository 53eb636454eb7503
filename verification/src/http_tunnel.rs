//! The HTTP tunnel: a simpler way of exposing a local web service, where the
//! server routes each HTTP request by the first label of its `Host` header to
//! the client registered under that name, and the client replays the request
//! line against its local service.
use vstd::prelude::*;
use vstd::string::{StrSliceExecFns, StringExecFns};
use vstd::utf8::{
    decode_utf8, encode_utf8, encode_utf8_decode_utf8, encode_utf8_valid_utf8, is_ascii_chars,
    is_ascii_chars_encode_utf8, valid_utf8,
};

verus! {

/// Whether `c` has the Unicode `White_Space` property, which is what
/// `char::is_whitespace` tests: the 25 code points U+0009 to U+000D, U+0020,
/// U+0085, U+00A0, U+1680, U+2000 to U+200A, U+2028, U+2029, U+202F, U+205F
/// and U+3000.
pub open spec fn white_space(c: char) -> bool {
    let u = c as u32;
    ||| 0x9 <= u <= 0xd
    ||| u == 0x20
    ||| u == 0x85
    ||| u == 0xa0
    ||| u == 0x1680
    ||| 0x2000 <= u <= 0x200a
    ||| u == 0x2028
    ||| u == 0x2029
    ||| u == 0x202f
    ||| u == 0x205f
    ||| u == 0x3000
}

/// Whether `c` is white space, as `char::is_whitespace` answers it.
pub fn is_white_space(c: char) -> (b: bool)
    ensures
        b == white_space(c),
{
    let u = c as u32;
    (0x9 <= u && u <= 0xd) || u == 0x20 || u == 0x85 || u == 0xa0 || u == 0x1680 || (0x2000 <= u
        && u <= 0x200a) || u == 0x2028 || u == 0x2029 || u == 0x202f || u == 0x205f || u == 0x3000
}

/// The text that `String::from_utf8_lossy` makes of these bytes.
pub uninterp spec fn utf8_lossy(bytes: Seq<u8>) -> Seq<char>;

/// Calls `String::from_utf8_lossy` and takes the text as an owned `String`.
/// Claimed: the text is [`utf8_lossy`] of the bytes, and, as the function's
/// documentation says, valid UTF-8 is decoded unchanged.
#[verifier::external_body]
fn lossy_text(bytes: &[u8]) -> (s: String)
    ensures
        s@ == utf8_lossy(bytes@),
        valid_utf8(bytes@) ==> s@ == decode_utf8(bytes@),
{
    String::from_utf8_lossy(bytes).into_owned()
}

/// The first position at or after `i` that does not hold white space, or the
/// length of `s` when there is none.
pub open spec fn skip_white(s: Seq<char>, i: int) -> int
    decreases s.len() - i,
{
    if i < 0 || i >= s.len() || !white_space(s[i]) {
        i
    } else {
        skip_white(s, i + 1)
    }
}

/// The end of the run of non-white-space characters that starts at `i`.
pub open spec fn token_end(s: Seq<char>, i: int) -> int
    decreases s.len() - i,
{
    if i < 0 || i >= s.len() || white_space(s[i]) {
        i
    } else {
        token_end(s, i + 1)
    }
}

/// The `k`-th white-space-separated word of `s` from position `i` on, as
/// `str::split_whitespace` yields them.
pub open spec fn nth_word(s: Seq<char>, i: int, k: nat) -> Option<Seq<char>>
    decreases k,
{
    let start = skip_white(s, i);
    if start >= s.len() {
        None
    } else if k == 0 {
        Some(s.subrange(start, token_end(s, start)))
    } else {
        nth_word(s, token_end(s, start), (k - 1) as nat)
    }
}

/// The end of `s` once white space at its end is cut off, looking no further
/// back than `lo`.
pub open spec fn trim_end(s: Seq<char>, lo: int, j: int) -> int
    decreases j - lo,
{
    if j <= lo || !white_space(s[j - 1]) {
        j
    } else {
        trim_end(s, lo, j - 1)
    }
}

/// `s` without white space at its start and its end, as `str::trim` gives it.
pub open spec fn trimmed(s: Seq<char>) -> Seq<char> {
    let start = skip_white(s, 0);
    if start >= s.len() {
        Seq::empty()
    } else {
        s.subrange(start, trim_end(s, start, s.len() as int))
    }
}

/// The position of the first `'.'` in `s`, or its length when there is none.
pub open spec fn first_dot(s: Seq<char>, i: int) -> int
    decreases s.len() - i,
{
    if i < 0 || i >= s.len() || s[i] == '.' {
        i
    } else {
        first_dot(s, i + 1)
    }
}

/// `s` up to its first `'.'`, as `s.split('.').next()` gives it.
pub open spec fn first_label(s: Seq<char>) -> Seq<char> {
    s.take(first_dot(s, 0))
}

/// Skips white space from position `i` of `s`.
fn skip_white_from(s: &str, len: usize, i: usize) -> (j: usize)
    requires
        len == s@.len(),
        i <= len,
    ensures
        j == skip_white(s@, i as int),
        i <= j <= len,
{
    let mut j = i;
    while j < len && is_white_space(s.get_char(j))
        invariant
            len == s@.len(),
            i <= j <= len,
            skip_white(s@, j as int) == skip_white(s@, i as int),
        decreases len - j,
    {
        j = j + 1;
    }
    j
}

/// Finds the end of the word that starts at position `i` of `s`.
fn word_end_from(s: &str, len: usize, i: usize) -> (j: usize)
    requires
        len == s@.len(),
        i <= len,
    ensures
        j == token_end(s@, i as int),
        i <= j <= len,
{
    let mut j = i;
    while j < len && !is_white_space(s.get_char(j))
        invariant
            len == s@.len(),
            i <= j <= len,
            token_end(s@, j as int) == token_end(s@, i as int),
        decreases len - j,
    {
        j = j + 1;
    }
    j
}

/// The method and the path of an HTTP request line: its first and second
/// white-space-separated words, `"GET"` and `""` where they are missing.
pub fn request_target(line: &str) -> (target: (String, String))
    ensures
        target.0@ == (match nth_word(line@, 0, 0) {
            Some(w) => w,
            None => "GET"@,
        }),
        target.1@ == (match nth_word(line@, 0, 1) {
            Some(w) => w,
            None => ""@,
        }),
{
    let len = line.unicode_len();
    let start0 = skip_white_from(line, len, 0);
    if start0 >= len {
        return (String::from_str("GET"), String::from_str(""));
    }
    let end0 = word_end_from(line, len, start0);
    let method = String::from_str(line.substring_char(start0, end0));
    let start1 = skip_white_from(line, len, end0);
    if start1 >= len {
        assert(nth_word(line@, end0 as int, 0) is None);
        return (method, String::from_str(""));
    }
    let end1 = word_end_from(line, len, start1);
    let path = String::from_str(line.substring_char(start1, end1));
    (method, path)
}

/// The URI under which the local service at `local_addr` serves `path`.
pub fn forward_uri(local_addr: &str, path: &str) -> (uri: String)
    ensures
        uri@ == "http://"@ + local_addr@ + path@,
{
    String::from_str("http://").concat(local_addr).concat(path)
}

/// The tunnel name of a `Host` header: its first label, before any `'.'`.
pub fn subdomain_of_host(host: &str) -> (name: String)
    ensures
        name@ == first_label(host@),
{
    let len = host.unicode_len();
    let mut i: usize = 0;
    while i < len && host.get_char(i) != '.'
        invariant
            len == host@.len(),
            i <= len,
            first_dot(host@, i as int) == first_dot(host@, 0),
        decreases len - i,
    {
        i = i + 1;
    }
    String::from_str(host.substring_char(0, i))
}

/// `s` without white space at its start and end.
pub fn trim_text(s: &str) -> (t: String)
    ensures
        t@ == trimmed(s@),
{
    let len = s.unicode_len();
    let start = skip_white_from(s, len, 0);
    if start >= len {
        proof {
            reveal_strlit("");
        }
        return String::from_str("");
    }
    let mut end = len;
    while end > start && is_white_space(s.get_char(end - 1))
        invariant
            len == s@.len(),
            start < len,
            start <= end <= len,
            trim_end(s@, start as int, end as int) == trim_end(s@, start as int, len as int),
        decreases end,
    {
        end = end - 1;
    }
    String::from_str(s.substring_char(start, end))
}

/// Every byte is ASCII.
pub open spec fn all_ascii(bytes: Seq<u8>) -> bool {
    forall|i: int| 0 <= i < bytes.len() ==> #[trigger] bytes[i] < 128
}

/// The characters of ASCII bytes, one per byte.
pub open spec fn ascii_chars(bytes: Seq<u8>) -> Seq<char> {
    Seq::new(bytes.len(), |i: int| bytes[i] as char)
}

/// ASCII bytes are valid UTF-8 and decode to one character each.
pub proof fn lemma_ascii_decodes(bytes: Seq<u8>)
    requires
        all_ascii(bytes),
    ensures
        valid_utf8(bytes),
        decode_utf8(bytes) == ascii_chars(bytes),
{
    let chars = ascii_chars(bytes);
    assert(is_ascii_chars(chars));
    is_ascii_chars_encode_utf8(chars);
    assert(encode_utf8(chars) =~= bytes);
    encode_utf8_valid_utf8(chars);
    encode_utf8_decode_utf8(chars);
}

/// The text of bytes received from the peer, invalid UTF-8 replaced.
pub fn received_text(bytes: &[u8]) -> (text: String)
    ensures
        text@ == utf8_lossy(bytes@),
        valid_utf8(bytes@) ==> text@ == decode_utf8(bytes@),
        all_ascii(bytes@) ==> text@ == ascii_chars(bytes@),
{
    proof {
        if all_ascii(bytes@) {
            lemma_ascii_decodes(bytes@);
        }
    }
    lossy_text(bytes)
}

/// The name a client registers its tunnel under: the bytes it sent first,
/// read as text (invalid UTF-8 replaced) and trimmed.
pub fn tunnel_name(bytes: &[u8]) -> (name: String)
    ensures
        name@ == trimmed(utf8_lossy(bytes@)),
        valid_utf8(bytes@) ==> name@ == trimmed(decode_utf8(bytes@)),
        all_ascii(bytes@) ==> name@ == trimmed(ascii_chars(bytes@)),
{
    proof {
        if all_ascii(bytes@) {
            lemma_ascii_decodes(bytes@);
        }
    }
    let text = lossy_text(bytes);
    trim_text(text.as_str())
}

/// The status code of the server's answer to an HTTP request: 200 when a
/// tunnel is registered under the request's name, 404 when none is.
pub fn reply_status(tunnel_found: bool) -> (status: u16)
    ensures
        tunnel_found ==> status == 200,
        !tunnel_found ==> status == 404,
{
    if tunnel_found {
        200
    } else {
        404
    }
}

/// The body of the answer when no tunnel is registered under the name.
pub fn not_found_body() -> (body: &'static str)
    ensures
        body@ == "Tunnel not found"@,
{
    "Tunnel not found"
}

/// Registered tunnels, each a connection to a client under the name it
/// registered.
pub struct TunnelRegistry<S> {
    entries: Vec<(String, S)>,
}

/// No name occurs twice among the entries.
pub open spec fn names_unique<S>(entries: Seq<(String, S)>) -> bool {
    forall|i: int, j: int|
        0 <= i < entries.len() && 0 <= j < entries.len() && i != j ==> #[trigger] entries[i].0@
            != #[trigger] entries[j].0@
}

/// The entries as a map from name to connection.
pub open spec fn entries_map<S>(entries: Seq<(String, S)>) -> Map<Seq<char>, S>
    decreases entries.len(),
{
    if entries.len() == 0 {
        Map::empty()
    } else {
        entries_map(entries.drop_last()).insert(entries.last().0@, entries.last().1)
    }
}

impl<S> TunnelRegistry<S> {
    /// The registered tunnels by name.
    pub closed spec fn tunnels(&self) -> Map<Seq<char>, S> {
        entries_map(self.entries@)
    }

    /// Each name is registered once.
    pub closed spec fn wf(&self) -> bool {
        names_unique(self.entries@)
    }

    /// An empty registry.
    pub fn new() -> (r: Self)
        ensures
            r.wf(),
            r.tunnels() == Map::<Seq<char>, S>::empty(),
    {
        TunnelRegistry { entries: Vec::new() }
    }

    /// The position of the entry named `name`, if there is one.
    fn find(&self, name: &str) -> (pos: Option<usize>)
        requires
            self.wf(),
        ensures
            pos is None ==> !self.tunnels().contains_key(name@),
            pos matches Some(i) ==> i < self.entries@.len() && self.entries@[i as int].0@ == name@,
    {
        let mut i: usize = 0;
        while i < self.entries.len()
            invariant
                self.wf(),
                i <= self.entries@.len(),
                forall|k: int| 0 <= k < i ==> #[trigger] self.entries@[k].0@ != name@,
            decreases self.entries@.len() - i,
        {
            if self.entries[i].0.as_str().unicode_len() == name.unicode_len() && string_eq(
                &self.entries[i].0,
                name,
            ) {
                return Some(i);
            }
            i = i + 1;
        }
        proof {
            lemma_absent_name(self.entries@, name@);
        }
        None
    }

    /// Registers `conn` under `name`, replacing any tunnel registered under it.
    pub fn insert(&mut self, name: String, conn: S)
        requires
            old(self).wf(),
        ensures
            final(self).wf(),
            final(self).tunnels() == old(self).tunnels().insert(name@, conn),
    {
        match self.find(name.as_str()) {
            Some(i) => {
                let ghost before = self.entries@;
                let _replaced = self.entries.remove(i);
                proof {
                    lemma_remove_entry(before, i as int);
                }
                let ghost removed = self.entries@;
                let entry = (name, conn);
                let ghost e = entry;
                self.entries.push(entry);
                proof {
                    lemma_push_fresh(removed, e);
                    assert(self.tunnels() =~= old(self).tunnels().insert(e.0@, e.1));
                }
            },
            None => {
                let ghost before = self.entries@;
                let entry = (name, conn);
                let ghost e = entry;
                self.entries.push(entry);
                proof {
                    lemma_push_fresh(before, e);
                }
            },
        }
    }

    /// Takes the tunnel registered under `name` out of the registry; the
    /// caller puts it back with [`TunnelRegistry::insert`] once it is done
    /// with it.
    pub fn take(&mut self, name: &str) -> (conn: Option<S>)
        requires
            old(self).wf(),
        ensures
            final(self).wf(),
            conn is Some <==> old(self).tunnels().contains_key(name@),
            conn matches Some(c) ==> c == old(self).tunnels()[name@],
            final(self).tunnels() == old(self).tunnels().remove(name@),
    {
        match self.find(name) {
            Some(i) => {
                let ghost before = self.entries@;
                let (_, conn) = self.entries.remove(i);
                proof {
                    lemma_remove_entry(before, i as int);
                }
                Some(conn)
            },
            None => {
                assert(self.tunnels().remove(name@) == self.tunnels());
                None
            },
        }
    }
}

/// Compares a registered name with `name`, character by character.
fn string_eq(a: &String, name: &str) -> (eq: bool)
    requires
        a@.len() == name@.len(),
    ensures
        eq == (a@ == name@),
{
    let s = a.as_str();
    let len = s.unicode_len();
    let mut i: usize = 0;
    while i < len
        invariant
            len == s@.len(),
            s@ == a@,
            a@.len() == name@.len(),
            i <= len,
            forall|k: int| 0 <= k < i ==> s@[k] == name@[k],
        decreases len - i,
    {
        if s.get_char(i) != name.get_char(i) {
            return false;
        }
        i = i + 1;
    }
    assert(a@ == name@);
    true
}

/// A name that no entry holds is not in the map.
proof fn lemma_absent_name<S>(entries: Seq<(String, S)>, name: Seq<char>)
    requires
        forall|k: int| 0 <= k < entries.len() ==> #[trigger] entries[k].0@ != name,
    ensures
        !entries_map(entries).contains_key(name),
    decreases entries.len(),
{
    if entries.len() > 0 {
        let init = entries.drop_last();
        assert forall|k: int| 0 <= k < init.len() implies #[trigger] init[k].0@ != name by {
            assert(init[k] == entries[k]);
        }
        lemma_absent_name(init, name);
        assert(entries[entries.len() - 1].0@ != name);
    }
}

/// The map of a list with unique names holds each entry's connection under
/// its name.
proof fn lemma_map_has_entries<S>(entries: Seq<(String, S)>)
    requires
        names_unique(entries),
    ensures
        forall|k: int|
            0 <= k < entries.len() ==> entries_map(entries).contains_key(#[trigger] entries[k].0@)
                && entries_map(entries)[entries[k].0@] == entries[k].1,
        forall|n: Seq<char>|
            entries_map(entries).contains_key(n) ==> exists|k: int|
                0 <= k < entries.len() && #[trigger] entries[k].0@ == n,
    decreases entries.len(),
{
    if entries.len() > 0 {
        let init = entries.drop_last();
        assert(names_unique(init)) by {
            assert forall|i: int, j: int|
                0 <= i < init.len() && 0 <= j < init.len() && i != j implies #[trigger] init[i].0@
                != #[trigger] init[j].0@ by {
                assert(init[i] == entries[i]);
                assert(init[j] == entries[j]);
            }
        }
        lemma_map_has_entries(init);
        let last = entries.len() - 1;
        assert forall|k: int| 0 <= k < entries.len() implies entries_map(entries).contains_key(
            #[trigger] entries[k].0@,
        ) && entries_map(entries)[entries[k].0@] == entries[k].1 by {
            if k < last {
                assert(init[k] == entries[k]);
                assert(entries[k].0@ != entries[last].0@);
            }
        }
        assert forall|n: Seq<char>| entries_map(entries).contains_key(n) implies exists|k: int|
            0 <= k < entries.len() && #[trigger] entries[k].0@ == n by {
            assert(entries_map(entries) == entries_map(init).insert(
                entries[last].0@,
                entries[last].1,
            ));
            if n != entries[last].0@ {
                assert(entries_map(init).contains_key(n));
                let k = choose|k: int| 0 <= k < init.len() && #[trigger] init[k].0@ == n;
                assert(entries[k] == init[k]);
            } else {
                assert(entries[last].0@ == n);
            }
        }
    }
}

/// Removing the entry at `i` of a list with unique names removes its name
/// from the map and keeps the names unique.
proof fn lemma_remove_entry<S>(entries: Seq<(String, S)>, i: int)
    requires
        names_unique(entries),
        0 <= i < entries.len(),
    ensures
        names_unique(entries.remove(i)),
        entries_map(entries.remove(i)) == entries_map(entries).remove(entries[i].0@),
        entries_map(entries).contains_key(entries[i].0@),
        entries_map(entries)[entries[i].0@] == entries[i].1,
{
    let r = entries.remove(i);
    assert(names_unique(r)) by {
        assert forall|a: int, b: int|
            0 <= a < r.len() && 0 <= b < r.len() && a != b implies #[trigger] r[a].0@
            != #[trigger] r[b].0@ by {
            let a0 = if a < i {
                a
            } else {
                a + 1
            };
            let b0 = if b < i {
                b
            } else {
                b + 1
            };
            assert(r[a] == entries[a0]);
            assert(r[b] == entries[b0]);
        }
    }
    lemma_map_has_entries(entries);
    lemma_map_has_entries(r);
    let m = entries_map(entries);
    let mr = entries_map(r);
    let name = entries[i].0@;
    assert forall|n: Seq<char>| mr.contains_key(n) implies m.remove(name).contains_key(n) && m.remove(
        name,
    )[n] == mr[n] by {
        let k = choose|k: int| 0 <= k < r.len() && #[trigger] r[k].0@ == n;
        let k0 = if k < i {
            k
        } else {
            k + 1
        };
        assert(r[k] == entries[k0]);
        assert(k0 != i);
    }
    assert forall|n: Seq<char>| m.remove(name).contains_key(n) implies mr.contains_key(n) by {
        let k = choose|k: int| 0 <= k < entries.len() && #[trigger] entries[k].0@ == n;
        assert(k != i);
        let k1 = if k < i {
            k
        } else {
            k - 1
        };
        assert(r[k1] == entries[k]);
    }
    assert(mr =~= m.remove(name));
}

/// Appending an entry whose name no entry holds keeps the names unique and
/// adds it to the map.
proof fn lemma_push_fresh<S>(entries: Seq<(String, S)>, entry: (String, S))
    requires
        names_unique(entries),
        !entries_map(entries).contains_key(entry.0@),
    ensures
        names_unique(entries.push(entry)),
        entries_map(entries.push(entry)) == entries_map(entries).insert(entry.0@, entry.1),
{
    lemma_map_has_entries(entries);
    let p = entries.push(entry);
    assert forall|a: int, b: int|
        0 <= a < p.len() && 0 <= b < p.len() && a != b implies #[trigger] p[a].0@
        != #[trigger] p[b].0@ by {
        if a < entries.len() && b < entries.len() {
            assert(p[a] == entries[a]);
            assert(p[b] == entries[b]);
        } else if a < entries.len() {
            assert(p[a] == entries[a]);
            assert(entries_map(entries).contains_key(entries[a].0@));
        } else {
            assert(p[b] == entries[b]);
            assert(entries_map(entries).contains_key(entries[b].0@));
        }
    }
    assert(p.drop_last() == entries);
}

/// The word search only ever moves forward and stays within the text.
proof fn lemma_scan_bounds(s: Seq<char>, i: int)
    requires
        0 <= i <= s.len(),
    ensures
        i <= skip_white(s, i) <= s.len(),
        i <= token_end(s, i) <= s.len(),
        forall|k: int| i <= k < skip_white(s, i) ==> white_space(#[trigger] s[k]),
        forall|k: int| i <= k < token_end(s, i) ==> !white_space(#[trigger] s[k]),
        skip_white(s, i) < s.len() ==> !white_space(s[skip_white(s, i)]),
    decreases s.len() - i,
{
    if i < s.len() {
        lemma_scan_bounds(s, i + 1);
    }
}

/// Every word that the request line yields is non-empty and holds no white
/// space, so a method or path taken from it never does.
pub proof fn lemma_words_are_nonblank(s: Seq<char>, i: int, k: nat)
    requires
        0 <= i <= s.len(),
    ensures
        nth_word(s, i, k) matches Some(w) ==> w.len() > 0 && forall|c: int|
            0 <= c < w.len() ==> !white_space(#[trigger] w[c]),
    decreases k,
{
    lemma_scan_bounds(s, i);
    let start = skip_white(s, i);
    if start < s.len() {
        lemma_scan_bounds(s, start);
        lemma_scan_bounds(s, start + 1);
        if k > 0 {
            lemma_words_are_nonblank(s, token_end(s, start), (k - 1) as nat);
        } else {
            let w = s.subrange(start, token_end(s, start));
            assert forall|c: int| 0 <= c < w.len() implies !white_space(#[trigger] w[c]) by {
                assert(w[c] == s[start + c]);
            }
        }
    }
}

/// A tunnel name is the first label of the host: it holds no `'.'`.
pub proof fn lemma_first_label_has_no_dot(s: Seq<char>)
    ensures
        forall|c: int| 0 <= c < first_label(s).len() ==> #[trigger] first_label(s)[c] != '.',
        first_label(s).len() <= s.len(),
        first_label(s).is_prefix_of(s),
{
    lemma_dot_scan(s, 0);
    let l = first_label(s);
    assert forall|c: int| 0 <= c < l.len() implies #[trigger] l[c] != '.' by {
        assert(l[c] == s[c]);
    }
}

/// The search for the first `'.'` stays within the text and passes no `'.'`.
proof fn lemma_dot_scan(s: Seq<char>, i: int)
    requires
        0 <= i <= s.len(),
    ensures
        i <= first_dot(s, i) <= s.len(),
        forall|k: int| i <= k < first_dot(s, i) ==> #[trigger] s[k] != '.',
    decreases s.len() - i,
{
    if i < s.len() {
        lemma_dot_scan(s, i + 1);
    }
}

/// Cutting white space off the end stops at a non-white-space character.
proof fn lemma_trim_end_bounds(s: Seq<char>, lo: int, j: int)
    requires
        0 <= lo < j <= s.len(),
        !white_space(s[lo]),
    ensures
        lo < trim_end(s, lo, j) <= j,
        !white_space(s[trim_end(s, lo, j) - 1]),
    decreases j - lo,
{
    if white_space(s[j - 1]) {
        lemma_trim_end_bounds(s, lo, j - 1);
    }
}

/// A trimmed text neither starts nor ends with white space.
pub proof fn lemma_trimmed_has_no_outer_white_space(s: Seq<char>)
    ensures
        trimmed(s).len() > 0 ==> !white_space(trimmed(s)[0]) && !white_space(
            trimmed(s)[trimmed(s).len() - 1],
        ),
        trimmed(s).len() <= s.len(),
{
    lemma_scan_bounds(s, 0);
    let start = skip_white(s, 0);
    if start < s.len() {
        lemma_trim_end_bounds(s, start, s.len() as int);
    }
}

} // verus!
