//! The trusted-device store: its devices, and the text file format in which
//! they are kept (one device per line, identity and display name separated
//! by a tab, each field percent-escaped).
use vstd::prelude::*;

use crate::device_table::{ids_distinct, peer_map, peer_views, DeviceTable};
use crate::model::{DeviceId, PeerDevice, PeerView, TrustStoreError};
use crate::text::{chars_of, decimal, push_decimal, push_str, string_from_chars, string_push};

verus! {

broadcast use vstd::slice::group_slice_axioms;

/// How one character of a field is written in the file: `%`, tab, newline
/// and carriage return are escaped as `%25`, `%09`, `%0A` and `%0D`.
pub open spec fn field_escape(c: char) -> Seq<char> {
    if c == '%' {
        seq!['%', '2', '5']
    } else if c == '\t' {
        seq!['%', '0', '9']
    } else if c == '\n' {
        seq!['%', '0', 'A']
    } else if c == '\r' {
        seq!['%', '0', 'D']
    } else {
        seq![c]
    }
}

/// The escaped form of a field.
pub open spec fn encoded_field(s: Seq<char>) -> Seq<char>
    decreases s.len(),
{
    if s.len() == 0 {
        Seq::empty()
    } else {
        field_escape(s[0]) + encoded_field(s.drop_first())
    }
}

/// The character an escape `%ab` stands for, if it is one of the four.
pub open spec fn unescape(a: char, b: char) -> Option<char> {
    if a == '2' && b == '5' {
        Some('%')
    } else if a == '0' && b == '9' {
        Some('\t')
    } else if a == '0' && b == 'A' {
        Some('\n')
    } else if a == '0' && b == 'D' {
        Some('\r')
    } else {
        None
    }
}

/// Puts `c` in front of a decoding result.
pub open spec fn prefix_ok(p: Seq<char>, r: Result<Seq<char>, Seq<char>>) -> Result<Seq<char>, Seq<char>> {
    match r {
        Ok(t) => Ok(p + t),
        Err(e) => Err(e),
    }
}

/// Decoding of an escaped field, left to right: the field's characters, or
/// the message of the first malformed escape (`invalid escape` when a `%` is
/// followed by fewer than two characters, `unsupported escape` when they are
/// not one of the four escapes).
pub open spec fn decoded_field(s: Seq<char>) -> Result<Seq<char>, Seq<char>>
    decreases s.len(),
{
    if s.len() == 0 {
        Ok(Seq::empty())
    } else if s[0] != '%' {
        prefix_ok(seq![s[0]], decoded_field(s.drop_first()))
    } else if s.len() < 3 {
        Err("invalid escape"@)
    } else {
        match unescape(s[1], s[2]) {
            None => Err("unsupported escape"@),
            Some(c) => prefix_ok(seq![c], decoded_field(s.skip(3))),
        }
    }
}

/// Escaping distributes over concatenation.
proof fn lemma_encoded_field_concat(a: Seq<char>, b: Seq<char>)
    ensures
        encoded_field(a + b) == encoded_field(a) + encoded_field(b),
    decreases a.len(),
{
    if a.len() == 0 {
        assert(a + b == b);
    } else {
        assert((a + b).drop_first() == a.drop_first() + b);
        lemma_encoded_field_concat(a.drop_first(), b);
        assert((a + b)[0] == a[0]);
    }
}

/// Escapes a field for the file.
pub fn encode_field(value: &str) -> (out: String)
    ensures
        out@ == encoded_field(value@),
{
    let cs = chars_of(value);
    let mut out = String::new();
    let mut i: usize = 0;
    while i < cs.len()
        invariant
            i <= cs@.len(),
            cs@ == value@,
            out@ == encoded_field(cs@.take(i as int)),
        decreases cs@.len() - i,
    {
        let c = cs[i];
        if c == '%' {
            push_str(&mut out, "%25");
        } else if c == '\t' {
            push_str(&mut out, "%09");
        } else if c == '\n' {
            push_str(&mut out, "%0A");
        } else if c == '\r' {
            push_str(&mut out, "%0D");
        } else {
            string_push(&mut out, c);
        }
        proof {
            reveal_strlit("%25");
            reveal_strlit("%09");
            reveal_strlit("%0A");
            reveal_strlit("%0D");
            let one = seq![c];
            assert(encoded_field(one) == field_escape(c) + encoded_field(one.drop_first()));
            assert(one.drop_first() =~= Seq::<char>::empty());
            assert(encoded_field(one) =~= field_escape(c));
            assert(cs@.take(i as int + 1) == cs@.take(i as int) + one);
            lemma_encoded_field_concat(cs@.take(i as int), one);
        }
        i = i + 1;
    }
    assert(cs@.take(cs@.len() as int) == cs@);
    out
}

/// Decodes an escaped field.
pub fn decode_field(value: &str) -> (out: Result<String, TrustStoreError>)
    ensures
        match decoded_field(value@) {
            Ok(r) => out matches Ok(s) && s@ == r,
            Err(m) => out matches Err(TrustStoreError::Parse(e)) && e@ == m,
        },
{
    let cs = chars_of(value);
    let n = cs.len();
    let mut out = String::new();
    let mut i: usize = 0;
    proof {
        assert(cs@.skip(0) == cs@);
        if let Ok(t) = decoded_field(cs@) {
            assert(out@ + t == t);
        }
    }
    while i < n
        invariant
            n == cs@.len(),
            i <= n,
            cs@ == value@,
            decoded_field(cs@) == prefix_ok(out@, decoded_field(cs@.skip(i as int))),
        decreases n - i,
    {
        let ghost rest = cs@.skip(i as int);
        assert(rest[0] == cs@[i as int]);
        let c = cs[i];
        if c != '%' {
            assert(rest.drop_first() == cs@.skip(i as int + 1));
            let ghost before = out@;
            string_push(&mut out, c);
            i = i + 1;
            proof {
                let tail = decoded_field(cs@.skip(i as int));
                if let Ok(t) = tail {
                    assert(before + (seq![c] + t) == before.push(c) + t);
                }
            }
        } else {
            if n - i < 3 {
                return Err(TrustStoreError::Parse(String::from_str("invalid escape")));
            }
            let a = cs[i + 1];
            let b = cs[i + 2];
            assert(rest[1] == a && rest[2] == b);
            assert(rest.skip(3) == cs@.skip(i as int + 3));
            let d = if a == '2' && b == '5' {
                '%'
            } else if a == '0' && b == '9' {
                '\t'
            } else if a == '0' && b == 'A' {
                '\n'
            } else if a == '0' && b == 'D' {
                '\r'
            } else {
                return Err(TrustStoreError::Parse(String::from_str("unsupported escape")));
            };
            let ghost before = out@;
            string_push(&mut out, d);
            i = i + 3;
            proof {
                let tail = decoded_field(cs@.skip(i as int));
                if let Ok(t) = tail {
                    assert(before + (seq![d] + t) == before.push(d) + t);
                }
            }
        }
    }
    assert(cs@.skip(n as int) =~= Seq::<char>::empty());
    assert(out@ + Seq::<char>::empty() == out@);
    Ok(out)
}


/// Decoding undoes escaping: every field is read back unchanged.
pub proof fn lemma_decode_encoded_field(s: Seq<char>)
    ensures
        decoded_field(encoded_field(s)) == Ok::<Seq<char>, Seq<char>>(s),
    decreases s.len(),
{
    if s.len() > 0 {
        let rest = s.drop_first();
        let e = encoded_field(s);
        lemma_decode_encoded_field(rest);
        let esc = field_escape(s[0]);
        assert(e == esc + encoded_field(rest));
        if s[0] == '%' || s[0] == '\t' || s[0] == '\n' || s[0] == '\r' {
            assert(esc.len() == 3);
            assert(e.skip(3) == encoded_field(rest));
            assert(e[0] == '%');
            assert(e[1] == esc[1] && e[2] == esc[2]);
            assert(unescape(e[1], e[2]) == Some(s[0]));
        } else {
            assert(esc == seq![s[0]]);
            assert(e[0] == s[0]);
            assert(e.drop_first() == encoded_field(rest));
        }
        assert(seq![s[0]] + rest == s);
        assert(decoded_field(e) == prefix_ok(seq![s[0]], decoded_field(encoded_field(rest))));
    } else {
        assert(s =~= Seq::<char>::empty());
    }
}

/// An escaped field holds no tab, newline or carriage return.
pub proof fn lemma_encoded_field_plain(s: Seq<char>)
    ensures
        forall|i: int|
            0 <= i < encoded_field(s).len() ==> #[trigger] encoded_field(s)[i] != '\t'
                && encoded_field(s)[i] != '\n' && encoded_field(s)[i] != '\r',
    decreases s.len(),
{
    if s.len() > 0 {
        lemma_encoded_field_plain(s.drop_first());
        let esc = field_escape(s[0]);
        let e = encoded_field(s);
        assert forall|i: int| 0 <= i < e.len() implies #[trigger] e[i] != '\t' && e[i] != '\n' && e[i]
            != '\r' by {
            if i >= esc.len() {
                assert(e[i] == encoded_field(s.drop_first())[i - esc.len()]);
            }
        }
    }
}

/// Drops one carriage return at the end of a line.
pub open spec fn strip_cr(line: Seq<char>) -> Seq<char> {
    if line.len() > 0 && line.last() == '\r' {
        line.drop_last()
    } else {
        line
    }
}

/// The lines of `rest`, the first one continuing `cur`: lines end at a
/// newline, a carriage return just before it is dropped, and a final
/// segment without newline is a line unless it is empty.
pub open spec fn lines_from(cur: Seq<char>, rest: Seq<char>) -> Seq<Seq<char>>
    decreases rest.len(),
{
    if rest.len() == 0 {
        if cur.len() == 0 {
            Seq::empty()
        } else {
            seq![cur]
        }
    } else if rest[0] == '\n' {
        seq![strip_cr(cur)] + lines_from(Seq::empty(), rest.drop_first())
    } else {
        lines_from(cur.push(rest[0]), rest.drop_first())
    }
}

/// The lines of a text, as `str::lines` splits it.
pub open spec fn lines_of(text: Seq<char>) -> Seq<Seq<char>> {
    lines_from(Seq::empty(), text)
}

/// Splits a text into lines as `str::lines` does.
pub fn split_lines(text: &str) -> (out: Vec<String>)
    ensures
        out@.map_values(|l: String| l@) == lines_of(text@),
{
    let cs = chars_of(text);
    let n = cs.len();
    let mut out: Vec<String> = Vec::new();
    let mut cur: Vec<char> = Vec::new();
    let mut i: usize = 0;
    proof {
        assert(cs@.skip(0) == cs@);
        assert(out@.map_values(|l: String| l@) =~= Seq::<Seq<char>>::empty());
        assert(cur@ =~= Seq::<char>::empty());
        assert(Seq::<Seq<char>>::empty() + lines_of(text@) == lines_of(text@));
    }
    while i < n
        invariant
            n == cs@.len(),
            i <= n,
            cs@ == text@,
            lines_of(text@) == out@.map_values(|l: String| l@) + lines_from(cur@, cs@.skip(i as int)),
        decreases n - i,
    {
        let ghost rest = cs@.skip(i as int);
        assert(rest[0] == cs@[i as int]);
        assert(rest.drop_first() == cs@.skip(i as int + 1));
        let c = cs[i];
        if c == '\n' {
            let k = cur.len();
            let line = if k > 0 && cur[k - 1] == '\r' {
                string_from_chars(vstd::slice::slice_subrange(cur.as_slice(), 0, k - 1))
            } else {
                string_from_chars(cur.as_slice())
            };
            assert(line@ == strip_cr(cur@));
            let ghost before = out@.map_values(|l: String| l@);
            out.push(line);
            assert(out@.map_values(|l: String| l@) == before.push(line@));
            cur = Vec::new();
        } else {
            cur.push(c);
        }
        i = i + 1;
    }
    let ghost before = out@.map_values(|l: String| l@);
    if cur.len() > 0 {
        out.push(string_from_chars(cur.as_slice()));
        assert(out@.map_values(|l: String| l@) =~= before + seq![cur@]);
    } else {
        assert(before + Seq::<Seq<char>>::empty() == before);
    }
    out
}


/// The file line of a device: escaped identity, a tab, escaped name.
pub open spec fn render_line(p: PeerView) -> Seq<char> {
    encoded_field(p.id) + seq!['\t'] + encoded_field(p.name)
}

/// The file contents for a sequence of devices: their lines joined by
/// newlines.
pub open spec fn render_lines(ps: Seq<PeerView>) -> Seq<char>
    decreases ps.len(),
{
    if ps.len() == 0 {
        Seq::empty()
    } else if ps.len() == 1 {
        render_line(ps[0])
    } else {
        render_line(ps[0]) + seq!['\n'] + render_lines(ps.drop_first())
    }
}

proof fn lemma_render_lines_snoc(ps: Seq<PeerView>, p: PeerView)
    requires
        ps.len() > 0,
    ensures
        render_lines(ps.push(p)) == render_lines(ps) + seq!['\n'] + render_line(p),
    decreases ps.len(),
{
    let qs = ps.push(p);
    assert(qs[0] == ps[0]);
    if ps.len() == 1 {
        assert(qs.drop_first() =~= seq![p]);
        assert(render_lines(seq![p]) == render_line(p));
        assert(render_lines(qs) =~= render_lines(ps) + seq!['\n'] + render_line(p));
    } else {
        assert(qs.drop_first() =~= ps.drop_first().push(p));
        lemma_render_lines_snoc(ps.drop_first(), p);
        assert(render_lines(qs) =~= render_lines(ps) + seq!['\n'] + render_line(p));
    }
}

/// The file line of one device.
fn render_device_line(out: &mut String, device: &PeerDevice)
    ensures
        final(out)@ == old(out)@ + render_line(device@),
{
    let id = encode_field(device.id.0.as_str());
    let name = encode_field(device.display_name.as_str());
    push_str(out, id.as_str());
    string_push(out, '\t');
    push_str(out, name.as_str());
    assert(final(out)@ =~= old(out)@ + render_line(device@));
}

/// The file contents for `devices`, in their order.
pub fn render_devices(devices: &[PeerDevice]) -> (out: String)
    ensures
        out@ == render_lines(peer_views(devices@)),
{
    let mut out = String::new();
    let mut i: usize = 0;
    while i < devices.len()
        invariant
            i <= devices@.len(),
            out@ == render_lines(peer_views(devices@).take(i as int)),
        decreases devices@.len() - i,
    {
        let ghost vs = peer_views(devices@);
        assert(vs.take(i as int + 1) == vs.take(i as int).push(vs[i as int]));
        if i > 0 {
            string_push(&mut out, '\n');
            proof {
                lemma_render_lines_snoc(vs.take(i as int), vs[i as int]);
            }
        } else {
            assert(vs.take(1) =~= seq![vs[0]]);
        }
        let ghost before = out@;
        render_device_line(&mut out, &devices[i]);
        proof {
            if i > 0 {
                assert(out@ =~= render_lines(vs.take(i as int)) + seq!['\n'] + render_line(vs[i as int]));
            } else {
                assert(before =~= Seq::<char>::empty());
                assert(out@ =~= render_line(vs[0]));
            }
        }
        i = i + 1;
    }
    assert(peer_views(devices@).take(devices@.len() as int) == peer_views(devices@));
    out
}

/// The text before and after the first tab, if there is one.
pub open spec fn split_at_tab(s: Seq<char>) -> Option<(Seq<char>, Seq<char>)>
    decreases s.len(),
{
    if s.len() == 0 {
        None
    } else if s[0] == '\t' {
        Some((Seq::empty(), s.drop_first()))
    } else {
        match split_at_tab(s.drop_first()) {
            None => None,
            Some((a, b)) => Some((seq![s[0]] + a, b)),
        }
    }
}

proof fn lemma_split_at_tab_none(s: Seq<char>)
    requires
        forall|j: int| 0 <= j < s.len() ==> #[trigger] s[j] != '\t',
    ensures
        split_at_tab(s) is None,
    decreases s.len(),
{
    if s.len() > 0 {
        assert forall|j: int| 0 <= j < s.drop_first().len() implies #[trigger] s.drop_first()[j] != '\t' by {
            assert(s.drop_first()[j] == s[j + 1]);
        }
        lemma_split_at_tab_none(s.drop_first());
    }
}

proof fn lemma_split_at_tab_first(s: Seq<char>, k: int)
    requires
        0 <= k < s.len(),
        s[k] == '\t',
        forall|j: int| 0 <= j < k ==> #[trigger] s[j] != '\t',
    ensures
        split_at_tab(s) == Some((s.take(k), s.skip(k + 1))),
    decreases k,
{
    if k == 0 {
        assert(s.take(0) =~= Seq::<char>::empty());
        assert(s.skip(1) == s.drop_first());
    } else {
        let r = s.drop_first();
        assert forall|j: int| 0 <= j < k - 1 implies #[trigger] r[j] != '\t' by {
            assert(r[j] == s[j + 1]);
        }
        lemma_split_at_tab_first(r, k - 1);
        assert(seq![s[0]] + r.take(k - 1) =~= s.take(k));
        assert(r.skip(k) =~= s.skip(k + 1));
    }
}

/// The message of a line without a tab.
pub open spec fn line_error(line_no: nat) -> Seq<char> {
    "invalid trust store line "@ + decimal(line_no)
}

/// Loading lines into `m`, the first of them having number `line_no`:
/// empty lines are skipped, each other line adds its device; the first
/// malformed line stops the load with its message, keeping what came
/// before it.
pub open spec fn load_lines(m: Map<Seq<char>, Seq<char>>, lines: Seq<Seq<char>>, line_no: nat) -> (
    Map<Seq<char>, Seq<char>>,
    Option<Seq<char>>,
)
    decreases lines.len(),
{
    if lines.len() == 0 {
        (m, None)
    } else if lines[0].len() == 0 {
        load_lines(m, lines.drop_first(), line_no + 1)
    } else {
        match split_at_tab(lines[0]) {
            None => (m, Some(line_error(line_no))),
            Some((raw_id, raw_name)) => match decoded_field(raw_id) {
                Err(e) => (m, Some(e)),
                Ok(id) => match decoded_field(raw_name) {
                    Err(e) => (m, Some(e)),
                    Ok(name) => load_lines(m.insert(id, name), lines.drop_first(), line_no + 1),
                },
            },
        }
    }
}

/// The devices that loading a file's contents yields, and the message of
/// the malformed line that stopped it, if any.
pub open spec fn load_contents_spec(content: Seq<char>) -> (
    Map<Seq<char>, Seq<char>>,
    Option<Seq<char>>,
) {
    load_lines(Map::empty(), lines_of(content), 1)
}

/// The position of the first tab in `cs`, if any.
fn first_tab(cs: &[char]) -> (out: Option<usize>)
    ensures
        match out {
            Some(k) => k < cs@.len() && cs@[k as int] == '\t' && forall|j: int|
                0 <= j < k ==> #[trigger] cs@[j] != '\t',
            None => forall|j: int| 0 <= j < cs@.len() ==> #[trigger] cs@[j] != '\t',
        },
{
    let mut i: usize = 0;
    while i < cs.len()
        invariant
            i <= cs@.len(),
            forall|j: int| 0 <= j < i ==> #[trigger] cs@[j] != '\t',
        decreases cs@.len() - i,
    {
        if cs[i] == '\t' {
            return Some(i);
        }
        i = i + 1;
    }
    None
}

/// Whether a text holds no newline.
pub open spec fn no_newline(a: Seq<char>) -> bool {
    forall|j: int| 0 <= j < a.len() ==> #[trigger] a[j] != '\n'
}

proof fn lemma_lines_from_newline(cur: Seq<char>, a: Seq<char>, b: Seq<char>)
    requires
        no_newline(a),
    ensures
        lines_from(cur, a + seq!['\n'] + b) == seq![strip_cr(cur + a)] + lines_from(Seq::empty(), b),
    decreases a.len(),
{
    let x = a + seq!['\n'] + b;
    if a.len() == 0 {
        assert(x[0] == '\n');
        assert(x.drop_first() =~= b);
        assert(cur + a =~= cur);
    } else {
        assert(x[0] == a[0]);
        assert(x.drop_first() =~= a.drop_first() + seq!['\n'] + b);
        assert(no_newline(a.drop_first())) by {
            assert forall|j: int| 0 <= j < a.drop_first().len() implies #[trigger] a.drop_first()[j] != '\n' by {
                assert(a.drop_first()[j] == a[j + 1]);
            }
        }
        lemma_lines_from_newline(cur.push(a[0]), a.drop_first(), b);
        assert(cur.push(a[0]) + a.drop_first() =~= cur + a);
    }
}

proof fn lemma_lines_from_last(cur: Seq<char>, a: Seq<char>)
    requires
        no_newline(a),
        (cur + a).len() > 0,
    ensures
        lines_from(cur, a) == seq![cur + a],
    decreases a.len(),
{
    if a.len() == 0 {
        assert(cur + a =~= cur);
    } else {
        assert(no_newline(a.drop_first())) by {
            assert forall|j: int| 0 <= j < a.drop_first().len() implies #[trigger] a.drop_first()[j] != '\n' by {
                assert(a.drop_first()[j] == a[j + 1]);
            }
        }
        lemma_lines_from_last(cur.push(a[0]), a.drop_first());
        assert(cur.push(a[0]) + a.drop_first() =~= cur + a);
    }
}

/// A device's line is not empty, holds no newline, does not end with a
/// carriage return, and splits at its first tab into the escaped fields.
proof fn lemma_render_line_shape(p: PeerView)
    ensures
        render_line(p).len() > 0,
        no_newline(render_line(p)),
        strip_cr(render_line(p)) == render_line(p),
        split_at_tab(render_line(p)) == Some((encoded_field(p.id), encoded_field(p.name))),
{
    let a = encoded_field(p.id);
    let b = encoded_field(p.name);
    let l = render_line(p);
    lemma_encoded_field_plain(p.id);
    lemma_encoded_field_plain(p.name);
    assert forall|j: int| 0 <= j < l.len() implies #[trigger] l[j] != '\n' by {
        if j < a.len() {
            assert(l[j] == a[j]);
        } else if j > a.len() {
            assert(l[j] == b[j - a.len() - 1]);
        }
    }
    if b.len() > 0 {
        assert(l.last() == b[b.len() - 1]);
    }
    assert forall|j: int| 0 <= j < a.len() implies #[trigger] l[j] != '\t' by {
        assert(l[j] == a[j]);
    }
    lemma_split_at_tab_first(l, a.len() as int);
    assert(l.take(a.len() as int) =~= a);
    assert(l.skip(a.len() as int + 1) =~= b);
}

proof fn lemma_lines_of_render(v: Seq<PeerView>)
    ensures
        lines_from(Seq::empty(), render_lines(v)) == v.map_values(|p: PeerView| render_line(p)),
    decreases v.len(),
{
    if v.len() == 0 {
        assert(v.map_values(|p: PeerView| render_line(p)) =~= Seq::<Seq<char>>::empty());
    } else if v.len() == 1 {
        lemma_render_line_shape(v[0]);
        lemma_lines_from_last(Seq::empty(), render_line(v[0]));
        assert(Seq::<char>::empty() + render_line(v[0]) =~= render_line(v[0]));
        assert(v.map_values(|p: PeerView| render_line(p)) =~= seq![render_line(v[0])]);
    } else {
        lemma_render_line_shape(v[0]);
        lemma_lines_from_newline(Seq::empty(), render_line(v[0]), render_lines(v.drop_first()));
        assert(Seq::<char>::empty() + render_line(v[0]) =~= render_line(v[0]));
        lemma_lines_of_render(v.drop_first());
        assert(v.map_values(|p: PeerView| render_line(p)) =~= seq![render_line(v[0])]
            + v.drop_first().map_values(|p: PeerView| render_line(p)));
    }
}

/// Inserting the devices of `v` into `m`, first to last.
pub open spec fn insert_all(m: Map<Seq<char>, Seq<char>>, v: Seq<PeerView>) -> Map<Seq<char>, Seq<char>>
    decreases v.len(),
{
    if v.len() == 0 {
        m
    } else {
        insert_all(m.insert(v[0].id, v[0].name), v.drop_first())
    }
}

proof fn lemma_load_rendered_lines(m: Map<Seq<char>, Seq<char>>, v: Seq<PeerView>, n: nat)
    ensures
        load_lines(m, v.map_values(|p: PeerView| render_line(p)), n) == (insert_all(m, v), None::<Seq<char>>),
    decreases v.len(),
{
    let ls = v.map_values(|p: PeerView| render_line(p));
    if v.len() > 0 {
        lemma_render_line_shape(v[0]);
        lemma_decode_encoded_field(v[0].id);
        lemma_decode_encoded_field(v[0].name);
        assert(ls[0] == render_line(v[0]));
        assert(ls.drop_first() =~= v.drop_first().map_values(|p: PeerView| render_line(p)));
        lemma_load_rendered_lines(m.insert(v[0].id, v[0].name), v.drop_first(), n + 1);
    }
}

proof fn lemma_insert_all(m: Map<Seq<char>, Seq<char>>, v: Seq<PeerView>)
    requires
        ids_distinct(v),
    ensures
        forall|k: Seq<char>|
            #[trigger] insert_all(m, v).contains_key(k) <==> (m.contains_key(k) || exists|i: int|
                0 <= i < v.len() && #[trigger] v[i].id == k),
        forall|i: int|
            0 <= i < v.len() ==> #[trigger] insert_all(m, v)[v[i].id] == v[i].name,
    decreases v.len(),
{
    if v.len() > 0 {
        let r = v.drop_first();
        let m2 = m.insert(v[0].id, v[0].name);
        assert(ids_distinct(r)) by {
            assert forall|a: int, b: int|
                0 <= a < r.len() && 0 <= b < r.len() && a != b implies #[trigger] r[a].id != #[trigger] r[b].id by {
                assert(r[a] == v[a + 1] && r[b] == v[b + 1]);
            }
        }
        lemma_insert_all(m2, r);
        assert(insert_all(m, v) == insert_all(m2, r));
        assert forall|k: Seq<char>|
            #[trigger] insert_all(m, v).contains_key(k) <==> (m.contains_key(k) || exists|i: int|
                0 <= i < v.len() && #[trigger] v[i].id == k) by {
            if k == v[0].id {
                assert(v[0].id == k);
            }
            if exists|i: int| 0 <= i < r.len() && #[trigger] r[i].id == k {
                let i = choose|i: int| 0 <= i < r.len() && #[trigger] r[i].id == k;
                assert(v[i + 1].id == k);
            }
            if exists|i: int| 0 <= i < v.len() && #[trigger] v[i].id == k {
                let i = choose|i: int| 0 <= i < v.len() && #[trigger] v[i].id == k;
                if i > 0 {
                    assert(r[i - 1].id == k);
                }
            }
        }
        assert forall|i: int| 0 <= i < v.len() implies #[trigger] insert_all(m, v)[v[i].id] == v[i].name by {
            if i > 0 {
                assert(r[i - 1] == v[i]);
            } else {
                let k = v[0].id;
                assert forall|j: int| 0 <= j < r.len() implies #[trigger] r[j].id != k by {
                    assert(r[j] == v[j + 1]);
                }
                assert(!(exists|j: int| 0 <= j < r.len() && #[trigger] r[j].id == k));
                lemma_insert_all_untouched(m2, r, k);
            }
        }
    }
}

proof fn lemma_insert_all_untouched(m: Map<Seq<char>, Seq<char>>, v: Seq<PeerView>, k: Seq<char>)
    requires
        forall|j: int| 0 <= j < v.len() ==> #[trigger] v[j].id != k,
    ensures
        m.contains_key(k) ==> insert_all(m, v).contains_key(k) && insert_all(m, v)[k] == m[k],
    decreases v.len(),
{
    if v.len() > 0 {
        let r = v.drop_first();
        assert forall|j: int| 0 <= j < r.len() implies #[trigger] r[j].id != k by {
            assert(r[j] == v[j + 1]);
        }
        lemma_insert_all_untouched(m.insert(v[0].id, v[0].name), r, k);
    }
}

/// What the store writes is what it reads back: loading the rendering of
/// any set of devices (distinct identities, any order) yields exactly those
/// devices and no error.
pub proof fn lemma_load_rendered_contents(v: Seq<PeerView>)
    requires
        ids_distinct(v),
    ensures
        load_contents_spec(render_lines(v)) == (peer_map(v), None::<Seq<char>>),
{
    lemma_lines_of_render(v);
    lemma_load_rendered_lines(Map::empty(), v, 1);
    lemma_insert_all(Map::empty(), v);
    crate::device_table::lemma_peer_map_ext(v, insert_all(Map::empty(), v));
}

/// The trusted devices and the file that keeps them across runs.
pub struct FileTrustStore {
    path: String,
    devices: DeviceTable,
}

impl FileTrustStore {
    /// The devices in the store: identity to display name.
    pub closed spec fn device_map(&self) -> Map<Seq<char>, Seq<char>> {
        self.devices@
    }

    /// The path of the backing file.
    pub closed spec fn path_view(&self) -> Seq<char> {
        self.path@
    }

    /// An empty store kept in the file at `path`.
    pub fn new(path: String) -> (out: Self)
        ensures
            out.path_view() == path@,
            out.device_map() == Map::<Seq<char>, Seq<char>>::empty(),
    {
        FileTrustStore { path, devices: DeviceTable::new() }
    }

    /// The path of the backing file.
    pub fn path(&self) -> (out: &str)
        ensures
            out@ == self.path_view(),
    {
        self.path.as_str()
    }

    /// Replaces the devices with those listed in `content`, the text of the
    /// backing file. A malformed line stops the load with a `Parse` error;
    /// the devices of the lines before it stay loaded.
    pub fn load_contents(&mut self, content: &str) -> (res: Result<(), TrustStoreError>)
        ensures
            final(self).path_view() == old(self).path_view(),
            final(self).device_map() == load_contents_spec(content@).0,
            match load_contents_spec(content@).1 {
                None => res is Ok,
                Some(m) => res matches Err(TrustStoreError::Parse(e)) && e@ == m,
            },
    {
        self.devices.clear();
        let lines = split_lines(content);
        let ghost all = lines@.map_values(|l: String| l@);
        let mut idx: usize = 0;
        proof {
            assert(all.skip(0) == all);
        }
        while idx < lines.len()
            invariant
                self.path_view() == old(self).path_view(),
                idx <= lines@.len(),
                all == lines@.map_values(|l: String| l@),
                all == lines_of(content@),
                load_contents_spec(content@) == load_lines(self.devices@, all.skip(idx as int), (idx + 1) as nat),
            decreases lines@.len() - idx,
        {
            let ghost rest = all.skip(idx as int);
            assert(rest[0] == lines@[idx as int]@);
            assert(rest.drop_first() == all.skip(idx as int + 1));
            let line = chars_of(lines[idx].as_str());
            if line.len() == 0 {
                idx = idx + 1;
                continue;
            }
            match first_tab(line.as_slice()) {
                None => {
                    proof {
                        lemma_split_at_tab_none(line@);
                    }
                    let mut msg = String::from_str("invalid trust store line ");
                    push_decimal(&mut msg, (idx + 1) as u128);
                    return Err(TrustStoreError::Parse(msg));
                },
                Some(k) => {
                    proof {
                        lemma_split_at_tab_first(line@, k as int);
                    }
                    let raw_id = string_from_chars(vstd::slice::slice_subrange(line.as_slice(), 0, k));
                    let raw_name = string_from_chars(
                        vstd::slice::slice_subrange(line.as_slice(), k + 1, line.len()),
                    );
                    let id = decode_field(raw_id.as_str())?;
                    let display_name = decode_field(raw_name.as_str())?;
                    self.devices.insert(PeerDevice { id: DeviceId(id), display_name });
                },
            }
            idx = idx + 1;
        }
        assert(all.skip(lines@.len() as int) =~= Seq::<Seq<char>>::empty());
        Ok(())
    }

    /// Trusts `device`, replacing an entry with the same identity; returns
    /// the new contents of the backing file.
    pub fn upsert(&mut self, device: PeerDevice) -> (contents: String)
        ensures
            final(self).path_view() == old(self).path_view(),
            final(self).device_map() == old(self).device_map().insert(device@.id, device@.name),
            final(self).persisted_as(contents@),
    {
        self.devices.insert(device);
        self.render()
    }

    /// Stops trusting the device with identity `device_id`; returns whether
    /// it was trusted, and the new contents of the backing file.
    pub fn remove(&mut self, device_id: &DeviceId) -> (out: (bool, String))
        ensures
            final(self).path_view() == old(self).path_view(),
            out.0 == old(self).device_map().contains_key(device_id@),
            final(self).device_map() == old(self).device_map().remove(device_id@),
            final(self).persisted_as(out.1@),
    {
        let removed = self.devices.remove(device_id);
        (removed, self.render())
    }

    /// The trusted devices, each once, in no particular order.
    pub fn devices(&self) -> (out: Vec<PeerDevice>)
        ensures
            ids_distinct(peer_views(out@)),
            peer_map(peer_views(out@)) == self.device_map(),
            out@.len() == self.device_map().len(),
    {
        self.devices.devices()
    }

    /// Whether `contents` is a rendering of the store: the lines of its
    /// devices, each once, in some order.
    pub open spec fn persisted_as(&self, contents: Seq<char>) -> bool {
        exists|v: Seq<PeerView>|
            ids_distinct(v) && peer_map(v) == self.device_map() && contents == render_lines(v)
    }

    /// The contents of the backing file for the current devices.
    pub fn render(&self) -> (contents: String)
        ensures
            self.persisted_as(contents@),
    {
        let devices = self.devices.devices();
        let contents = render_devices(devices.as_slice());
        assert(ids_distinct(peer_views(devices@)));
        contents
    }
}

/// A store's written contents read back as the store: loading what
/// `upsert`, `remove` or `render` produced gives exactly the store's devices.
pub proof fn lemma_persisted_contents_reload(store: FileTrustStore, contents: Seq<char>)
    requires
        store.persisted_as(contents),
    ensures
        load_contents_spec(contents) == (store.device_map(), None::<Seq<char>>),
{
    let v = choose|v: Seq<PeerView>|
        ids_distinct(v) && peer_map(v) == store.device_map() && contents == render_lines(v);
    lemma_load_rendered_contents(v);
}

/// A revoked device stays revoked across a restart: the contents written
/// for a store without a device load back without it.
pub proof fn lemma_removed_device_not_reloaded(store: FileTrustStore, contents: Seq<char>, id: Seq<char>)
    requires
        store.persisted_as(contents),
        !store.device_map().contains_key(id),
    ensures
        !load_contents_spec(contents).0.contains_key(id),
{
    lemma_persisted_contents_reload(store, contents);
}

} // verus!
