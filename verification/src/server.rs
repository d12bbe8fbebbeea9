//! Finding the ticket server.
//!
//! When no server is named on the command line the client reads the batch
//! system's configuration file: the last line that mentions `PBS_SERVER`
//! names the host, as the field after the first `=`, up to its first `.`.
//! The server is then reached over HTTPS on port 8000.
use vstd::prelude::*;
use crate::text::chars_of;

verus! {

/// `i` is the position of the first `c` in `s`, or `s.len()` when `s` has none.
pub open spec fn is_first_index(s: Seq<char>, c: char, i: int) -> bool {
    &&& 0 <= i <= s.len()
    &&& i < s.len() ==> s[i] == c
    &&& forall|j: int| 0 <= j < i ==> s[j] != c
}

/// The position of the first `c` in `s`, or `s.len()` when `s` has none.
pub open spec fn first_index(s: Seq<char>, c: char) -> nat {
    (choose|i: nat| is_first_index(s, c, i as int))
}

/// There is exactly one first position.
pub proof fn lemma_first_index(s: Seq<char>, c: char, i: int)
    requires
        is_first_index(s, c, i),
    ensures
        first_index(s, c) == i,
{
    let w: nat = i as nat;
    assert(is_first_index(s, c, w as int));
    let k = first_index(s, c);
    assert(is_first_index(s, c, k as int));
    if (k as int) < i {
        assert(s[k as int] == c);
    } else if (k as int) > i {
        assert(s[i] == c);
    }
}

/// A line without the carriage return that ended it, if any.
pub open spec fn strip_cr(l: Seq<char>) -> Seq<char> {
    if l.len() > 0 && l.last() == '\r' {
        l.drop_last()
    } else {
        l
    }
}

/// The lines of a text, as `str::lines` splits them: at each `\n`, with a
/// `\r` that precedes the `\n` removed; a final `\n` opens no further line.
pub open spec fn lines(s: Seq<char>) -> Seq<Seq<char>>
    decreases s.len(),
{
    if s.len() == 0 {
        Seq::empty()
    } else {
        let i = first_index(s, '\n');
        if i >= s.len() {
            seq![s]
        } else {
            seq![strip_cr(s.take(i as int))] + lines(s.skip(i + 1 as int))
        }
    }
}

/// `pat` occurs in `l`.
pub open spec fn mentions(l: Seq<char>, pat: Seq<char>) -> bool {
    exists|i: int| 0 <= i && i + pat.len() <= l.len() && #[trigger] l.subrange(i, i + pat.len()) == pat
}

/// The key that marks the server line.
pub open spec fn server_key() -> Seq<char> {
    "PBS_SERVER"@
}

/// Scanning `ls` in order, the latest line that mentions the server key,
/// starting from `latest`.
pub open spec fn last_server_line(ls: Seq<Seq<char>>, latest: Option<Seq<char>>) -> Option<Seq<char>>
    decreases ls.len(),
{
    if ls.len() == 0 {
        latest
    } else {
        last_server_line(
            ls.drop_first(),
            if mentions(ls[0], server_key()) { Some(ls[0]) } else { latest },
        )
    }
}

/// The host named by a server line: the field after the first `=` (up to the
/// next `=`), cut at its first `.`; nothing when the line has no `=`.
pub open spec fn host_of_line(l: Seq<char>) -> Option<Seq<char>> {
    let e = first_index(l, '=');
    if e >= l.len() {
        None
    } else {
        let rest = l.skip(e + 1 as int);
        let field = rest.take(first_index(rest, '=') as int);
        Some(field.take(first_index(field, '.') as int))
    }
}

/// The address of the ticket server named by a configuration text.
pub open spec fn server_url_of(conf: Seq<char>) -> Option<Seq<char>> {
    match last_server_line(lines(conf), None) {
        None => None,
        Some(l) => match host_of_line(l) {
            None => None,
            Some(h) => Some("https://"@ + h + ":8000"@),
        },
    }
}

/// The first position of `c` in `cs[from..to]`, as an index into `cs`; `to`
/// when there is none.
fn find_from(cs: &Vec<char>, c: char, from: usize, to: usize) -> (k: usize)
    requires
        from <= to <= cs.len(),
    ensures
        from <= k <= to,
        is_first_index(cs@.subrange(from as int, to as int), c, k - from),
        first_index(cs@.subrange(from as int, to as int), c) == k - from,
{
    let mut k = from;
    while k < to && cs[k] != c
        invariant
            from <= k <= to <= cs.len(),
            forall|j: int| from <= j < k ==> cs@[j] != c,
        decreases to - k,
    {
        k = k + 1;
    }
    let ghost sub = cs@.subrange(from as int, to as int);
    assert(is_first_index(sub, c, k - from));
    proof {
        lemma_first_index(sub, c, k - from);
    }
    k
}

/// Whether `pat` occurs in `cs[from..to]`.
fn mentions_in(cs: &Vec<char>, from: usize, to: usize, pat: &Vec<char>) -> (found: bool)
    requires
        from <= to <= cs.len(),
    ensures
        found == mentions(cs@.subrange(from as int, to as int), pat@),
{
    let ghost line = cs@.subrange(from as int, to as int);
    let m = pat.len();
    if to - from < m {
        assert forall|i: int| 0 <= i && i + pat@.len() <= line.len() implies
            #[trigger] line.subrange(i, i + pat@.len()) != pat@ by {}
        return false;
    }
    let last = to - m;
    let mut i = from;
    while i <= last
        invariant
            from <= i,
            last + m == to,
            to <= cs.len(),
            m == pat@.len(),
            line == cs@.subrange(from as int, to as int),
            forall|p: int| 0 <= p < i - from ==> #[trigger] line.subrange(p, p + m) != pat@,
        decreases last + 1 - i,
    {
        let mut j: usize = 0;
        let mut same = true;
        while j < m
            invariant
                j <= m,
                i + m <= to,
                to <= cs.len(),
                m == pat@.len(),
                same == (forall|q: int| 0 <= q < j ==> cs@[i + q] == pat@[q]),
            decreases m - j,
        {
            if cs[i + j] != pat[j] {
                same = false;
            }
            j = j + 1;
        }
        if same {
            assert(line.subrange(i - from, i - from + m) =~= pat@);
            return true;
        }
        assert(!(line.subrange(i - from, i - from + m) =~= pat@));
        i = i + 1;
    }
    assert forall|p: int| 0 <= p && p + pat@.len() <= line.len() implies
        #[trigger] line.subrange(p, p + pat@.len()) != pat@ by {}
    false
}

/// One line at a time: the lines from `pos` on are the line that starts at
/// `pos` followed by the lines after it.
proof fn lemma_lines_step(s: Seq<char>, pos: int, nl: int, end: int, next: int)
    requires
        0 <= pos < s.len(),
        pos <= nl <= s.len(),
        is_first_index(s.subrange(pos, s.len() as int), '\n', nl - pos),
        end == (if nl < s.len() && nl > pos && s[nl - 1] == '\r' { nl - 1 } else { nl }),
        next == (if nl < s.len() { nl + 1 } else { s.len() as int }),
    ensures
        lines(s.skip(pos)) == seq![s.subrange(pos, end)] + lines(s.skip(next)),
{
    let t = s.skip(pos);
    assert(t =~= s.subrange(pos, s.len() as int));
    lemma_first_index(t, '\n', nl - pos);
    if nl < s.len() {
        assert(t.take(nl - pos) =~= s.subrange(pos, nl));
        assert(strip_cr(t.take(nl - pos)) =~= s.subrange(pos, end));
        assert(t.skip(nl - pos + 1) =~= s.skip(next));
    } else {
        assert(s.skip(next) =~= Seq::<char>::empty());
        assert(t =~= s.subrange(pos, end));
        assert(seq![t] + Seq::<Seq<char>>::empty() =~= seq![t]);
    }
}

/// Scanning a line, then the rest.
proof fn lemma_last_server_line_step(l: Seq<char>, rest: Seq<Seq<char>>, latest: Option<Seq<char>>)
    ensures
        last_server_line(seq![l] + rest, latest) == last_server_line(
            rest,
            if mentions(l, server_key()) { Some(l) } else { latest },
        ),
{
    let ls = seq![l] + rest;
    assert(ls.drop_first() =~= rest);
    assert(ls[0] == l);
}

/// The server line of a configuration text, as the range of character
/// positions that it covers.
fn find_server_line(cs: &Vec<char>) -> (found: Option<(usize, usize)>)
    ensures
        match found {
            Some((a, b)) => a <= b <= cs.len() && last_server_line(lines(cs@), None) == Some(
                cs@.subrange(a as int, b as int),
            ),
            None => last_server_line(lines(cs@), None) is None,
        },
{
    let key = chars_of("PBS_SERVER");
    let n = cs.len();
    let mut pos: usize = 0;
    let mut found: Option<(usize, usize)> = None;
    assert(cs@.skip(0) =~= cs@);
    while pos < n
        invariant
            n == cs.len(),
            key@ == server_key(),
            pos <= n,
            found matches Some((a, b)) ==> a <= b <= n,
            last_server_line(lines(cs@), None) == last_server_line(
                lines(cs@.skip(pos as int)),
                match found {
                    Some((a, b)) => Some(cs@.subrange(a as int, b as int)),
                    None => None,
                },
            ),
        decreases n - pos,
    {
        let nl = find_from(cs, '\n', pos, n);
        let end: usize = if nl < n && nl > pos && cs[nl - 1] == '\r' {
            nl - 1
        } else {
            nl
        };
        let next: usize = if nl < n {
            nl + 1
        } else {
            n
        };
        proof {
            lemma_lines_step(cs@, pos as int, nl as int, end as int, next as int);
            lemma_last_server_line_step(
                cs@.subrange(pos as int, end as int),
                lines(cs@.skip(next as int)),
                match found {
                    Some((a, b)) => Some(cs@.subrange(a as int, b as int)),
                    None => None,
                },
            );
        }
        if mentions_in(cs, pos, end, &key) {
            found = Some((pos, end));
        }
        pos = next;
    }
    assert(cs@.skip(n as int) =~= Seq::<char>::empty());
    found
}

/// The address of the ticket server named by the batch system's
/// configuration text; `None` when no line mentions `PBS_SERVER`, or when
/// the last such line has no `=`.
pub fn server_url_from_conf(conf: &str) -> (url: Option<String>)
    ensures
        match server_url_of(conf@) {
            Some(u) => url matches Some(s) && s@ == u,
            None => url is None,
        },
{
    let cs = chars_of(conf);
    match find_server_line(&cs) {
        None => None,
        Some((a, b)) => {
            let ghost l = cs@.subrange(a as int, b as int);
            let e = find_from(&cs, '=', a, b);
            if e == b {
                None
            } else {
                let e2 = find_from(&cs, '=', e + 1, b);
                let d = find_from(&cs, '.', e + 1, e2);
                proof {
                    let rest = l.skip(e - a + 1);
                    assert(rest =~= cs@.subrange(e + 1, b as int));
                    let field = rest.take(first_index(rest, '=') as int);
                    assert(field =~= cs@.subrange(e + 1, e2 as int));
                    assert(field.take(first_index(field, '.') as int) =~= cs@.subrange(e + 1, d as int));
                }
                let host = conf.substring_char(e + 1, d);
                let mut url = String::from_str("https://");
                url.append(host);
                url.append(":8000");
                Some(url)
            }
        },
    }
}

/// The GraphQL endpoint of a server.
pub fn api_endpoint(server: &str) -> (endpoint: String)
    ensures
        endpoint@ == server@ + "/api"@,
{
    let mut endpoint = String::from_str(server);
    endpoint.append("/api");
    endpoint
}

/// The login endpoint of a server.
pub fn login_url(server: &str) -> (url: String)
    ensures
        url@ == server@ + "/login"@,
{
    let mut url = String::from_str(server);
    url.append("/login");
    url
}

/// No line of a text holds a line break.
proof fn lemma_lines_unbroken(s: Seq<char>)
    ensures
        forall|k: int| 0 <= k < lines(s).len() ==> !(#[trigger] lines(s)[k]).contains('\n'),
    decreases s.len(),
{
    if s.len() > 0 {
        lemma_first_position_exists(s, '\n');
        let i = first_index(s, '\n');
        assert(is_first_index(s, '\n', i as int));
        if i < s.len() {
            lemma_lines_unbroken(s.skip(i + 1 as int));
            let head = strip_cr(s.take(i as int));
            assert(!head.contains('\n'));
            let rest = lines(s.skip(i + 1 as int));
            assert forall|k: int| 0 <= k < lines(s).len() implies !(#[trigger] lines(s)[k]).contains('\n') by {
                if k > 0 {
                    assert(lines(s)[k] == rest[k - 1]);
                }
            }
        }
    }
}

/// Every text has a first position for every character.
proof fn lemma_first_position_exists(s: Seq<char>, c: char)
    ensures
        exists|i: nat| is_first_index(s, c, i as int),
    decreases s.len(),
{
    if s.len() == 0 {
        assert(is_first_index(s, c, 0));
    } else {
        let t = s.drop_last();
        lemma_first_position_exists(t, c);
        let i = choose|i: nat| is_first_index(t, c, i as int);
        assert(forall|j: int| 0 <= j < t.len() ==> s[j] == t[j]);
        if i < t.len() {
            assert(is_first_index(s, c, i as int));
        } else if s.last() == c {
            assert(is_first_index(s, c, t.len() as int));
        } else {
            assert(is_first_index(s, c, s.len() as int));
        }
    }
}

/// The server line found by a scan is one of the lines scanned, or the line
/// the scan started from.
proof fn lemma_last_server_line_member(ls: Seq<Seq<char>>, latest: Option<Seq<char>>)
    ensures
        last_server_line(ls, latest) matches Some(l) ==> ls.contains(l) || latest == Some(l),
    decreases ls.len(),
{
    if ls.len() > 0 {
        let next = if mentions(ls[0], server_key()) { Some(ls[0]) } else { latest };
        lemma_last_server_line_member(ls.drop_first(), next);
        if let Some(l) = last_server_line(ls, latest) {
            if ls.drop_first().contains(l) {
                let k = choose|k: int| 0 <= k < ls.drop_first().len() && ls.drop_first()[k] == l;
                assert(ls[k + 1] == l);
            } else if next == Some(l) && mentions(ls[0], server_key()) {
                assert(ls[0] == l);
            }
        }
    }
}

/// The server host is a single name: it holds no `.`, no `=` and no line
/// break.
pub proof fn lemma_server_host_is_plain_name(conf: Seq<char>)
    ensures
        server_url_of(conf) matches Some(u) ==> exists|h: Seq<char>|
            {
                &&& u == "https://"@ + h + ":8000"@
                &&& !h.contains('.')
                &&& !h.contains('=')
                &&& !h.contains('\n')
            },
{
    if let Some(l) = last_server_line(lines(conf), None) {
        lemma_last_server_line_member(lines(conf), None);
        lemma_lines_unbroken(conf);
        let k = choose|k: int| 0 <= k < lines(conf).len() && lines(conf)[k] == l;
        assert(!l.contains('\n'));
        if let Some(h) = host_of_line(l) {
            let e = first_index(l, '=');
            let rest = l.skip(e + 1 as int);
            lemma_first_position_exists(l, '=');
            lemma_first_position_exists(rest, '=');
            let f = first_index(rest, '=');
            let field = rest.take(f as int);
            lemma_first_position_exists(field, '.');
            let d = first_index(field, '.');
            assert(h == field.take(d as int));
            assert forall|j: int| 0 <= j < h.len() implies h[j] != '.' && h[j] != '=' && h[j] != '\n' by {
                assert(h[j] == field[j]);
                assert(field[j] == rest[j]);
                assert(rest[j] == l[e + 1 + j]);
            }
            let u = "https://"@ + h + ":8000"@;
            assert(server_url_of(conf) == Some(u));
            assert(!h.contains('.') && !h.contains('=') && !h.contains('\n'));
        }
    }
}

/// The lines of a text that ends a line (or is empty) followed by more text
/// are the lines of the first part followed by the lines of the rest.
proof fn lemma_lines_concat(pre: Seq<char>, tail: Seq<char>)
    requires
        pre.len() == 0 || pre.last() == '\n',
    ensures
        lines(pre + tail) == lines(pre) + lines(tail),
    decreases pre.len(),
{
    let s = pre + tail;
    if pre.len() == 0 {
        assert(s =~= tail);
        assert(lines(pre) + lines(tail) =~= lines(tail));
    } else {
        lemma_first_position_exists(pre, '\n');
        let i = first_index(pre, '\n');
        assert(is_first_index(pre, '\n', i as int));
        if i >= pre.len() {
            assert(pre[pre.len() - 1] == '\n');
        }
        assert(i < pre.len());
        assert(is_first_index(s, '\n', i as int));
        lemma_first_index(s, '\n', i as int);
        let rest = pre.skip(i + 1 as int);
        assert(rest.len() == 0 || rest.last() == pre.last());
        lemma_lines_concat(rest, tail);
        assert(s.take(i as int) =~= pre.take(i as int));
        assert(s.skip(i + 1 as int) =~= rest + tail);
        assert(lines(s) == seq![strip_cr(pre.take(i as int))] + lines(rest + tail));
        assert(lines(pre) == seq![strip_cr(pre.take(i as int))] + lines(rest));
        assert(lines(s) =~= lines(pre) + lines(tail));
    }
}

/// A line ended by a line break, then more text.
proof fn lemma_lines_line_first(line: Seq<char>, after: Seq<char>)
    requires
        forall|j: int| 0 <= j < line.len() ==> line[j] != '\n',
    ensures
        lines(line + seq!['\n'] + after) == seq![strip_cr(line)] + lines(after),
{
    let s = line + seq!['\n'] + after;
    assert(is_first_index(s, '\n', line.len() as int));
    lemma_first_index(s, '\n', line.len() as int);
    assert(s.take(line.len() as int) =~= line);
    assert(s.skip(line.len() + 1 as int) =~= after);
}

/// Scanning two runs of lines is scanning the first, then the second.
proof fn lemma_last_server_line_concat(xs: Seq<Seq<char>>, ys: Seq<Seq<char>>, latest: Option<Seq<char>>)
    ensures
        last_server_line(xs + ys, latest) == last_server_line(ys, last_server_line(xs, latest)),
    decreases xs.len(),
{
    if xs.len() == 0 {
        assert(xs + ys =~= ys);
    } else {
        let next = if mentions(xs[0], server_key()) { Some(xs[0]) } else { latest };
        lemma_last_server_line_concat(xs.drop_first(), ys, next);
        assert((xs + ys).drop_first() =~= xs.drop_first() + ys);
        assert((xs + ys)[0] == xs[0]);
    }
}

/// Scanning lines none of which mentions the key keeps the line found so far.
proof fn lemma_last_server_line_none_mention(ys: Seq<Seq<char>>, latest: Option<Seq<char>>)
    requires
        forall|k: int| 0 <= k < ys.len() ==> !mentions(#[trigger] ys[k], server_key()),
    ensures
        last_server_line(ys, latest) == latest,
    decreases ys.len(),
{
    if ys.len() > 0 {
        assert(!mentions(ys[0], server_key()));
        assert forall|k: int| 0 <= k < ys.drop_first().len() implies !mentions(#[trigger] ys.drop_first()[k], server_key()) by {
            assert(ys.drop_first()[k] == ys[k + 1]);
        }
        lemma_last_server_line_none_mention(ys.drop_first(), latest);
    }
}

/// Every line of a text is a stretch of that text.
proof fn lemma_lines_are_stretches(s: Seq<char>)
    ensures
        forall|k: int| 0 <= k < lines(s).len() ==> exists|a: int, b: int|
            0 <= a <= b <= s.len() && #[trigger] lines(s)[k] == s.subrange(a, b),
    decreases s.len(),
{
    if s.len() > 0 {
        lemma_first_position_exists(s, '\n');
        let i = first_index(s, '\n');
        if i < s.len() {
            let rest = s.skip(i + 1 as int);
            lemma_lines_are_stretches(rest);
            let head = strip_cr(s.take(i as int));
            assert forall|k: int| 0 <= k < lines(s).len() implies exists|a: int, b: int|
                0 <= a <= b <= s.len() && #[trigger] lines(s)[k] == s.subrange(a, b) by {
                if k == 0 {
                    if i > 0 && s.take(i as int).last() == '\r' {
                        assert(head =~= s.subrange(0, i - 1));
                    } else {
                        assert(head =~= s.subrange(0, i as int));
                    }
                } else {
                    assert(lines(s)[k] == lines(rest)[k - 1]);
                    let (a, b) = choose|a: int, b: int|
                        0 <= a <= b <= rest.len() && lines(rest)[k - 1] == rest.subrange(a, b);
                    assert(rest.subrange(a, b) =~= s.subrange(a + i + 1, b + i + 1));
                }
            }
        } else {
            assert(lines(s)[0] == s.subrange(0, s.len() as int));
        }
    }
}

/// A text that does not mention the key has no line that does.
proof fn lemma_no_mention_no_line(s: Seq<char>)
    requires
        !mentions(s, server_key()),
    ensures
        forall|k: int| 0 <= k < lines(s).len() ==> !mentions(#[trigger] lines(s)[k], server_key()),
{
    lemma_lines_are_stretches(s);
    assert forall|k: int| 0 <= k < lines(s).len() implies !mentions(#[trigger] lines(s)[k], server_key()) by {
        let (a, b) = choose|a: int, b: int| 0 <= a <= b <= s.len() && lines(s)[k] == s.subrange(a, b);
        let l = lines(s)[k];
        if mentions(l, server_key()) {
            let n = server_key().len();
            let i = choose|i: int| 0 <= i && i + n <= l.len() && #[trigger] l.subrange(i, i + n) == server_key();
            assert(s.subrange(a + i, a + i + n) =~= l.subrange(i, i + n));
        }
    }
}

/// Without `PBS_SERVER` anywhere in the configuration there is no server.
pub proof fn lemma_no_key_no_server(conf: Seq<char>)
    requires
        !exists|i: int| 0 <= i && i + 10 <= conf.len() && #[trigger] conf.subrange(i, i + 10) == "PBS_SERVER"@,
    ensures
        server_url_of(conf) is None,
{
    reveal_strlit("PBS_SERVER");
    assert(!mentions(conf, server_key()));
    lemma_no_mention_no_line(conf);
    lemma_last_server_line_none_mention(lines(conf), None);
}

/// The server named by a configuration whose last `PBS_SERVER` line reads
/// `PBS_SERVER=<host><tail>`: the address is `https://<host>:8000`, whatever
/// the lines before it hold, whatever characters other than `.`, `=`, a
/// carriage return or a line break the host holds, when the rest of the line
/// is empty or starts with a `.` and holds no `=`, and no later text
/// mentions `PBS_SERVER`.
pub proof fn lemma_server_url_of_server_line(
    pre: Seq<char>,
    host: Seq<char>,
    tail: Seq<char>,
    after: Seq<char>,
)
    requires
        pre.len() == 0 || pre.last() == '\n',
        forall|j: int| 0 <= j < host.len() ==> host[j] != '.' && host[j] != '=' && host[j] != '\n' && host[j] != '\r',
        tail.len() == 0 || tail[0] == '.',
        forall|j: int| 0 <= j < tail.len() ==> tail[j] != '=' && tail[j] != '\n' && tail[j] != '\r',
        !exists|i: int| 0 <= i && i + 10 <= after.len() && #[trigger] after.subrange(i, i + 10) == "PBS_SERVER"@,
    ensures
        server_url_of(pre + "PBS_SERVER="@ + host + tail + seq!['\n'] + after) == Some(
            "https://"@ + host + ":8000"@,
        ),
{
    reveal_strlit("PBS_SERVER");
    reveal_strlit("PBS_SERVER=");
    let key = "PBS_SERVER="@;
    let line = key + host + tail;
    let conf = pre + "PBS_SERVER="@ + host + tail + seq!['\n'] + after;
    let s2 = line + seq!['\n'] + after;
    assert(conf =~= pre + s2);
    assert forall|j: int| 0 <= j < line.len() implies line[j] != '\n' && line[j] != '\r' by {
        if j >= key.len() + host.len() {
            assert(line[j] == tail[j - key.len() - host.len()]);
        } else if j >= key.len() {
            assert(line[j] == host[j - key.len()]);
        }
    }
    // the line as `lines` cuts it
    lemma_lines_concat(pre, s2);
    lemma_lines_line_first(line, after);
    assert(strip_cr(line) == line);
    // it mentions the key, and nothing after it does
    assert(server_key().len() == 10);
    assert(line.subrange(0, 0 + server_key().len() as int) =~= server_key());
    assert(mentions(line, server_key()));
    assert(!mentions(after, server_key()));
    lemma_no_mention_no_line(after);
    lemma_last_server_line_concat(lines(pre), seq![line] + lines(after), None);
    lemma_last_server_line_step(line, lines(after), last_server_line(lines(pre), None));
    lemma_last_server_line_none_mention(lines(after), Some(line));
    assert(last_server_line(lines(conf), None) == Some(line));
    // the host inside the line
    assert(is_first_index(line, '=', 10));
    lemma_first_index(line, '=', 10);
    let rest = line.skip(11);
    assert(rest =~= host + tail);
    assert(is_first_index(rest, '=', rest.len() as int));
    lemma_first_index(rest, '=', rest.len() as int);
    assert(rest.take(rest.len() as int) =~= rest);
    assert(is_first_index(rest, '.', host.len() as int));
    lemma_first_index(rest, '.', host.len() as int);
    assert(rest.take(host.len() as int) =~= host);
    assert(host_of_line(line) == Some(host));
}

/// Once the server line is found, an `=` in it is all it takes: the address
/// is `https://` + the stretch after the line's first `=` that runs up to
/// the next `.` or `=` or the end of the line + `:8000`, whatever other
/// characters that stretch holds.  Without an `=` there is no address.
pub proof fn lemma_server_url_of_line(conf: Seq<char>, l: Seq<char>)
    requires
        last_server_line(lines(conf), None) == Some(l),
    ensures
        (exists|j: int| 0 <= j < l.len() && l[j] == '=') ==> exists|e: int, d: int|
            {
                &&& 0 <= e && e + 1 <= d <= l.len()
                &&& l[e] == '='
                &&& (forall|j: int| 0 <= j < e ==> l[j] != '=')
                &&& (forall|j: int| e < j < d ==> l[j] != '.' && l[j] != '=')
                &&& (d == l.len() || l[d] == '.' || l[d] == '=')
                &&& server_url_of(conf) == Some("https://"@ + l.subrange(e + 1, d) + ":8000"@)
            },
        !(exists|j: int| 0 <= j < l.len() && l[j] == '=') ==> server_url_of(conf) is None,
{
    lemma_first_position_exists(l, '=');
    let e: int = first_index(l, '=') as int;
    if e < l.len() {
        let rest = l.skip(e + 1 as int);
        lemma_first_position_exists(rest, '=');
        let f = first_index(rest, '=');
        let field = rest.take(f as int);
        lemma_first_position_exists(field, '.');
        let g = first_index(field, '.');
        let d: int = e + 1 + g;
        assert(is_first_index(rest, '=', f as int));
        assert(is_first_index(field, '.', g as int));
        assert(field.len() == f);
        assert(rest.len() == l.len() - e - 1);
        assert(d <= l.len());
        assert(field.take(g as int) =~= l.subrange(e + 1, d));
        assert forall|j: int| e < j < d implies l[j] != '.' && l[j] != '=' by {
            assert(l[j] == rest[j - e - 1]);
            assert(field[j - e - 1] == rest[j - e - 1]);
        }
        if d < l.len() {
            if g < field.len() {
                assert(field[g as int] == l[d]);
            } else {
                assert(rest[f as int] == l[d]);
            }
        }
        assert(server_url_of(conf) == Some("https://"@ + l.subrange(e + 1, d) + ":8000"@));
    } else {
        if exists|j: int| 0 <= j < l.len() && l[j] == '=' {
            let j = choose|j: int| 0 <= j < l.len() && l[j] == '=';
            assert(l[j] != '=');
        }
    }
}

} // verus!
