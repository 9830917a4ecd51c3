//! Same-machine receiver registry: one small `key=value` text file per
//! receiver, for when two processes cannot share mDNS multicast. This module
//! writes and reads the file contents and names; the application does the
//! file-system work.

use vstd::prelude::*;
use vstd::slice::slice_to_vec;
use crate::discovery::{txt_number, StreamAdvertisement};
use crate::text::{
    chars_eq, decimal_chars, find_char, find_char_from, is_trimmed, is_ws, lemma_decimal_chars,
    lemma_find_char_at, lemma_parse_decimal_roundtrip, lemma_trim_trimmed, lines,
    parse_unsigned, parse_unsigned_chars, push_char, push_decimal, str_chars, string_from_chars,
    strip_cr, trim, trim_bounds, all_digits, is_digit,
};

verus! {

/// Frames older than this many seconds mark a registry entry as stale.
pub const MAX_AGE_SECS: u64 = 30;

/// Fields of a registry entry as plain values.
pub struct EntryView {
    pub instance: Seq<char>,
    pub host: Seq<char>,
    pub port: u16,
    pub width: u32,
    pub height: u32,
    pub fps: u32,
    pub max_width: u32,
    pub max_height: u32,
    pub max_fps: u32,
}

pub open spec fn key_instance() -> Seq<char> { seq!['i', 'n', 's', 't', 'a', 'n', 'c', 'e'] }
pub open spec fn key_host() -> Seq<char> { seq!['h', 'o', 's', 't'] }
pub open spec fn key_port() -> Seq<char> { seq!['p', 'o', 'r', 't'] }
pub open spec fn key_w() -> Seq<char> { seq!['w'] }
pub open spec fn key_h() -> Seq<char> { seq!['h'] }
pub open spec fn key_fps() -> Seq<char> { seq!['f', 'p', 's'] }
pub open spec fn key_max_w() -> Seq<char> { seq!['m', 'a', 'x', '_', 'w'] }
pub open spec fn key_max_h() -> Seq<char> { seq!['m', 'a', 'x', '_', 'h'] }
pub open spec fn key_max_fps() -> Seq<char> { seq!['m', 'a', 'x', '_', 'f', 'p', 's'] }

/// A port value: the parsed `u16`, or 0 when it does not parse.
pub open spec fn port_number(v: Seq<char>) -> u16 {
    match parse_unsigned(v, u16::MAX as nat) {
        Some(n) => n as u16,
        None => 0,
    }
}

/// One line of an entry applied: `key=value` split at the first `=`, both
/// sides trimmed; unknown keys and lines without `=` change nothing.
pub open spec fn apply_entry_line(e: EntryView, line: Seq<char>) -> EntryView {
    match find_char(line, '=') {
        None => e,
        Some(i) => {
            let k = trim(line.take(i));
            let v = trim(line.skip(i + 1));
            if k == key_instance() { EntryView { instance: v, ..e } }
            else if k == key_host() { EntryView { host: v, ..e } }
            else if k == key_port() { EntryView { port: port_number(v), ..e } }
            else if k == key_w() { EntryView { width: txt_number(v), ..e } }
            else if k == key_h() { EntryView { height: txt_number(v), ..e } }
            else if k == key_fps() { EntryView { fps: txt_number(v), ..e } }
            else if k == key_max_w() { EntryView { max_width: txt_number(v), ..e } }
            else if k == key_max_h() { EntryView { max_height: txt_number(v), ..e } }
            else if k == key_max_fps() { EntryView { max_fps: txt_number(v), ..e } }
            else { e }
        },
    }
}

/// Lines applied in order, later lines winning.
pub open spec fn apply_entry_lines(e: EntryView, ls: Seq<Seq<char>>) -> EntryView
    decreases ls.len(),
{
    if ls.len() == 0 {
        e
    } else {
        apply_entry_lines(apply_entry_line(e, ls[0]), ls.drop_first())
    }
}

/// An entry with only the defaults: the file's name and this machine's address.
pub open spec fn default_entry(default_instance: Seq<char>, default_host: Seq<char>) -> EntryView {
    EntryView { instance: default_instance, host: default_host, port: 0, width: 0, height: 0, fps: 0, max_width: 0, max_height: 0, max_fps: 0 }
}

/// The receiver a registry file describes; none without a non-zero port.
pub open spec fn parsed_entry(text: Seq<char>, default_instance: Seq<char>, default_host: Seq<char>) -> Option<EntryView> {
    let e = apply_entry_lines(default_entry(default_instance, default_host), lines(text));
    if e.port == 0 { None } else { Some(e) }
}

/// An advertisement as plain values.
pub open spec fn entry_of(ad: StreamAdvertisement) -> EntryView {
    EntryView {
        instance: ad.instance_name@,
        host: ad.host@,
        port: ad.port,
        width: ad.width,
        height: ad.height,
        fps: ad.fps,
        max_width: ad.max_width,
        max_height: ad.max_height,
        max_fps: ad.max_fps,
    }
}

/// Exec form of an entry being read.
struct EntryFields {
    instance: Vec<char>,
    host: Vec<char>,
    port: u16,
    width: u32,
    height: u32,
    fps: u32,
    max_width: u32,
    max_height: u32,
    max_fps: u32,
}

impl EntryFields {
    spec fn view_entry(&self) -> EntryView {
        EntryView {
            instance: self.instance@,
            host: self.host@,
            port: self.port,
            width: self.width,
            height: self.height,
            fps: self.fps,
            max_width: self.max_width,
            max_height: self.max_height,
            max_fps: self.max_fps,
        }
    }
}

fn u32_value(v: &[char]) -> (r: u32)
    ensures
        r == txt_number(v@),
{
    match parse_unsigned_chars(v, u32::MAX as u64) {
        Some(n) => n as u32,
        None => 0,
    }
}

fn u16_value(v: &[char]) -> (r: u16)
    ensures
        r == port_number(v@),
{
    match parse_unsigned_chars(v, u16::MAX as u64) {
        Some(n) => n as u16,
        None => 0,
    }
}

fn apply_line(e: &mut EntryFields, line: &[char])
    ensures
        final(e).view_entry() == apply_entry_line(old(e).view_entry(), line@),
{
    let eq = match find_char_from(line, 0, '=') {
        Some(i) => i,
        None => {
            assert(line@.skip(0) =~= line@);
            return;
        },
    };
    assert(line@.skip(0) =~= line@);
    let line_len = line.len();
    let key_part = &line[0..eq];
    let val_part = &line[eq + 1..line_len];
    assert(key_part@ =~= line@.take(eq as int));
    assert(val_part@ =~= line@.skip(eq + 1));
    let (ka, kb) = trim_bounds(key_part);
    let (va, vb) = trim_bounds(val_part);
    let k = &key_part[ka..kb];
    let v = &val_part[va..vb];
    assert(k@ =~= key_part@.subrange(ka as int, kb as int));
    assert(v@ =~= val_part@.subrange(va as int, vb as int));
    let k_instance = ['i', 'n', 's', 't', 'a', 'n', 'c', 'e'];
    let k_host = ['h', 'o', 's', 't'];
    let k_port = ['p', 'o', 'r', 't'];
    let k_w = ['w'];
    let k_h = ['h'];
    let k_fps = ['f', 'p', 's'];
    let k_max_w = ['m', 'a', 'x', '_', 'w'];
    let k_max_h = ['m', 'a', 'x', '_', 'h'];
    let k_max_fps = ['m', 'a', 'x', '_', 'f', 'p', 's'];
    assert(k_instance@ =~= key_instance());
    assert(k_host@ =~= key_host());
    assert(k_port@ =~= key_port());
    assert(k_w@ =~= key_w());
    assert(k_h@ =~= key_h());
    assert(k_fps@ =~= key_fps());
    assert(k_max_w@ =~= key_max_w());
    assert(k_max_h@ =~= key_max_h());
    assert(k_max_fps@ =~= key_max_fps());
    if chars_eq(k, &k_instance) {
        e.instance = slice_to_vec(v);
        assert(e.instance@ =~= v@);
    } else if chars_eq(k, &k_host) {
        e.host = slice_to_vec(v);
        assert(e.host@ =~= v@);
    } else if chars_eq(k, &k_port) {
        e.port = u16_value(v);
    } else if chars_eq(k, &k_w) {
        e.width = u32_value(v);
    } else if chars_eq(k, &k_h) {
        e.height = u32_value(v);
    } else if chars_eq(k, &k_fps) {
        e.fps = u32_value(v);
    } else if chars_eq(k, &k_max_w) {
        e.max_width = u32_value(v);
    } else if chars_eq(k, &k_max_h) {
        e.max_height = u32_value(v);
    } else if chars_eq(k, &k_max_fps) {
        e.max_fps = u32_value(v);
    }
}

/// Reads a registry file: `key=value` lines for `instance`, `host`, `port`,
/// `w`, `h`, `fps`, `max_w`, `max_h` and `max_fps` (numbers that do not
/// parse count as 0), with the file's name and this machine's address as the
/// defaults for the first two. A file without a non-zero port describes no receiver.
pub fn parse_entry(text: &str, default_instance: &str, default_host: &str) -> (r: Option<StreamAdvertisement>)
    ensures
        match r {
            Some(ad) => parsed_entry(text@, default_instance@, default_host@) == Some(entry_of(ad)),
            None => parsed_entry(text@, default_instance@, default_host@) is None,
        },
{
    let cs = str_chars(text);
    let n = cs.len();
    let mut e = EntryFields {
        instance: str_chars(default_instance),
        host: str_chars(default_host),
        port: 0,
        width: 0,
        height: 0,
        fps: 0,
        max_width: 0,
        max_height: 0,
        max_fps: 0,
    };
    let ghost e0 = e.view_entry();
    assert(e0 == default_entry(default_instance@, default_host@));
    let mut pos: usize = 0;
    assert(cs@.skip(0) =~= cs@);
    while pos < n
        invariant
            n == cs@.len(),
            cs@ == text@,
            pos <= n,
            apply_entry_lines(e0, lines(cs@)) == apply_entry_lines(e.view_entry(), lines(cs@.skip(pos as int))),
        decreases n - pos,
    {
        let ghost t = cs@.skip(pos as int);
        let ghost before = e.view_entry();
        assert(t.len() > 0);
        match find_char_from(cs.as_slice(), pos, '\n') {
            Some(j) => {
                let mut end: usize = j;
                if end > pos && cs[end - 1] == '\r' {
                    end = end - 1;
                }
                let line = &cs.as_slice()[pos..end];
                proof {
                    let l = t.take(j - pos);
                    assert(line@ =~= strip_cr(l)) by {
                        if j > pos && cs@[j - 1] == '\r' {
                            assert(l.last() == cs@[j - 1]);
                        }
                    }
                    assert(t.skip(j - pos + 1) =~= cs@.skip(j + 1));
                    let ls = lines(t);
                    assert(ls == seq![strip_cr(l)] + lines(t.skip(j - pos + 1)));
                    assert(ls[0] == strip_cr(l));
                    assert(ls.drop_first() =~= lines(cs@.skip(j + 1)));
                }
                apply_line(&mut e, line);
                pos = j + 1;
            },
            None => {
                let line = &cs.as_slice()[pos..n];
                proof {
                    assert(line@ =~= t);
                    let ls = lines(t);
                    assert(ls == seq![t]);
                    assert(ls[0] == t);
                    assert(ls.drop_first() =~= Seq::<Seq<char>>::empty());
                    assert(cs@.skip(n as int) =~= Seq::<char>::empty());
                    assert(lines(cs@.skip(n as int)) =~= Seq::<Seq<char>>::empty());
                }
                apply_line(&mut e, line);
                pos = n;
            },
        }
    }
    assert(cs@.skip(n as int) =~= Seq::<char>::empty());
    if e.port == 0 {
        return None;
    }
    Some(StreamAdvertisement {
        instance_name: string_from_chars(e.instance.as_slice()),
        host: string_from_chars(e.host.as_slice()),
        port: e.port,
        width: e.width,
        height: e.height,
        fps: e.fps,
        max_width: e.max_width,
        max_height: e.max_height,
        max_fps: e.max_fps,
    })
}

/// One `key=value` line with its newline.
pub open spec fn entry_line(k: Seq<char>, v: Seq<char>) -> Seq<char> {
    k + seq!['='] + v + seq!['\n']
}

/// Contents of the registry file of a receiver: its name, address, port,
/// session size and rate, and its caps (the session values where none are
/// set; 15 fps where neither is).
pub open spec fn rendered_entry(ad: StreamAdvertisement) -> Seq<char> {
    let max_w = if ad.max_width > 0 { ad.max_width } else { ad.width };
    let max_h = if ad.max_height > 0 { ad.max_height } else { ad.height };
    let max_fps = if ad.max_fps > 0 { ad.max_fps } else { 15 };
    entry_line(key_instance(), ad.instance_name@) + (entry_line(key_host(), ad.host@) + (entry_line(key_port(), decimal_chars(ad.port as nat))
        + (entry_line(key_w(), decimal_chars(ad.width as nat)) + (entry_line(key_h(), decimal_chars(ad.height as nat))
        + (entry_line(key_fps(), decimal_chars(ad.fps as nat)) + (entry_line(key_max_w(), decimal_chars(max_w as nat))
        + (entry_line(key_max_h(), decimal_chars(max_h as nat)) + entry_line(key_max_fps(), decimal_chars(max_fps as nat)))))))))
}

fn push_chars(s: &mut String, cs: &[char])
    ensures
        final(s)@ == old(s)@ + cs@,
{
    let mut i: usize = 0;
    while i < cs.len()
        invariant
            i <= cs@.len(),
            s@ == old(s)@ + cs@.take(i as int),
        decreases cs@.len() - i,
    {
        push_char(s, cs[i]);
        i += 1;
        assert(s@ =~= old(s)@ + cs@.take(i as int));
    }
    assert(cs@.take(cs@.len() as int) =~= cs@);
}

fn push_entry_line(s: &mut String, k: &[char], v: &[char])
    ensures
        final(s)@ == old(s)@ + entry_line(k@, v@),
{
    push_chars(s, k);
    push_char(s, '=');
    push_chars(s, v);
    push_char(s, '\n');
    assert(final(s)@ =~= old(s)@ + entry_line(k@, v@));
}

fn push_number_line(s: &mut String, k: &[char], n: u32)
    ensures
        final(s)@ == old(s)@ + entry_line(k@, decimal_chars(n as nat)),
{
    push_chars(s, k);
    push_char(s, '=');
    push_decimal(s, n as u64);
    push_char(s, '\n');
    assert(final(s)@ =~= old(s)@ + entry_line(k@, decimal_chars(n as nat)));
}

/// The registry file contents for a receiver.
pub fn render_entry(ad: &StreamAdvertisement) -> (r: String)
    ensures
        r@ == rendered_entry(*ad),
{
    let mut s = String::new();
    let k_instance = ['i', 'n', 's', 't', 'a', 'n', 'c', 'e'];
    let k_host = ['h', 'o', 's', 't'];
    let k_port = ['p', 'o', 'r', 't'];
    let k_w = ['w'];
    let k_h = ['h'];
    let k_fps = ['f', 'p', 's'];
    let k_max_w = ['m', 'a', 'x', '_', 'w'];
    let k_max_h = ['m', 'a', 'x', '_', 'h'];
    let k_max_fps = ['m', 'a', 'x', '_', 'f', 'p', 's'];
    assert(k_instance@ =~= key_instance());
    assert(k_host@ =~= key_host());
    assert(k_port@ =~= key_port());
    assert(k_w@ =~= key_w());
    assert(k_h@ =~= key_h());
    assert(k_fps@ =~= key_fps());
    assert(k_max_w@ =~= key_max_w());
    assert(k_max_h@ =~= key_max_h());
    assert(k_max_fps@ =~= key_max_fps());
    let name = str_chars(ad.instance_name.as_str());
    let host = str_chars(ad.host.as_str());
    push_entry_line(&mut s, &k_instance, name.as_slice());
    push_entry_line(&mut s, &k_host, host.as_slice());
    push_number_line(&mut s, &k_port, ad.port as u32);
    push_number_line(&mut s, &k_w, ad.width);
    push_number_line(&mut s, &k_h, ad.height);
    push_number_line(&mut s, &k_fps, ad.fps);
    push_number_line(&mut s, &k_max_w, ad.effective_max_width());
    push_number_line(&mut s, &k_max_h, ad.effective_max_height());
    push_number_line(&mut s, &k_max_fps, ad.effective_max_fps(15));
    assert(s@ =~= rendered_entry(*ad));
    s
}

/// A character kept in a registry file name: ASCII letter or digit, `-`, `_`.
pub open spec fn is_name_char(c: char) -> bool {
    ('a' <= c && c <= 'z') || ('A' <= c && c <= 'Z') || ('0' <= c && c <= '9') || c == '-' || c == '_'
}

/// Registry file name of an instance: every other character replaced by `_`, then `.txt`.
pub open spec fn entry_file_name_of(instance: Seq<char>) -> Seq<char> {
    instance.map_values(|c: char| if is_name_char(c) { c } else { '_' }) + seq!['.', 't', 'x', 't']
}

/// Registry file name of an instance.
pub fn entry_file_name(instance_name: &str) -> (r: String)
    ensures
        r@ == entry_file_name_of(instance_name@),
{
    let cs = str_chars(instance_name);
    let mut s = String::new();
    let mut i: usize = 0;
    while i < cs.len()
        invariant
            cs@ == instance_name@,
            i <= cs@.len(),
            s@ == cs@.take(i as int).map_values(|c: char| if is_name_char(c) { c } else { '_' }),
        decreases cs@.len() - i,
    {
        let c = cs[i];
        let keep = ('a' <= c && c <= 'z') || ('A' <= c && c <= 'Z') || ('0' <= c && c <= '9') || c == '-' || c == '_';
        push_char(&mut s, if keep { c } else { '_' });
        i += 1;
        assert(s@ =~= cs@.take(i as int).map_values(|c: char| if is_name_char(c) { c } else { '_' }));
    }
    assert(cs@.take(cs@.len() as int) =~= cs@);
    let ext = ['.', 't', 'x', 't'];
    push_chars(&mut s, &ext);
    assert(s@ =~= entry_file_name_of(instance_name@));
    s
}

/// A registry file name: it ends in `.txt`.
pub fn is_entry_file_name(file_name: &str) -> (r: bool)
    ensures
        r == (file_name@.len() >= 4 && file_name@.skip(file_name@.len() - 4) == seq!['.', 't', 'x', 't']),
{
    let cs = str_chars(file_name);
    let n = cs.len();
    if n < 4 {
        return false;
    }
    let r = cs[n - 4] == '.' && cs[n - 3] == 't' && cs[n - 2] == 'x' && cs[n - 1] == 't';
    assert(r == (cs@.skip(n - 4) =~= seq!['.', 't', 'x', 't']));
    r
}

/// An entry last written `age_secs` ago is still live (younger than 30 s).
pub fn entry_is_fresh(age_secs: u64) -> (r: bool)
    ensures
        r == (age_secs < 30),
{
    age_secs < MAX_AGE_SECS
}

/// `s` has no newline.
pub open spec fn no_newline(s: Seq<char>) -> bool {
    forall|i: int| 0 <= i < s.len() ==> #[trigger] s[i] != '\n'
}

proof fn lemma_lines_cons(l: Seq<char>, rest: Seq<char>)
    requires
        no_newline(l),
        l.len() == 0 || l.last() != '\r',
    ensures
        lines(l + seq!['\n'] + rest) == seq![l] + lines(rest),
{
    let t = l + seq!['\n'] + rest;
    assert(t[l.len() as int] == '\n');
    assert forall|k: int| 0 <= k < l.len() implies #[trigger] t[k] != '\n' by {
        assert(t[k] == l[k]);
    }
    lemma_find_char_at(t, '\n', l.len() as int);
    assert(t.take(l.len() as int) =~= l);
    assert(t.skip(l.len() as int + 1) =~= rest);
}

proof fn lemma_key_value_line(e: EntryView, k: Seq<char>, v: Seq<char>)
    requires
        k.len() > 0,
        forall|i: int| 0 <= i < k.len() ==> #[trigger] k[i] != '=' && !is_ws(k[i]),
        is_trimmed(v),
    ensures
        apply_entry_line(e, k + seq!['='] + v) == ({
            if k == key_instance() { EntryView { instance: v, ..e } }
            else if k == key_host() { EntryView { host: v, ..e } }
            else if k == key_port() { EntryView { port: port_number(v), ..e } }
            else if k == key_w() { EntryView { width: txt_number(v), ..e } }
            else if k == key_h() { EntryView { height: txt_number(v), ..e } }
            else if k == key_fps() { EntryView { fps: txt_number(v), ..e } }
            else if k == key_max_w() { EntryView { max_width: txt_number(v), ..e } }
            else if k == key_max_h() { EntryView { max_height: txt_number(v), ..e } }
            else if k == key_max_fps() { EntryView { max_fps: txt_number(v), ..e } }
            else { e }
        }),
{
    let line = k + seq!['='] + v;
    assert(line[k.len() as int] == '=');
    assert forall|i: int| 0 <= i < k.len() implies #[trigger] line[i] != '=' by {
        assert(line[i] == k[i]);
    }
    lemma_find_char_at(line, '=', k.len() as int);
    assert(line.take(k.len() as int) =~= k);
    assert(line.skip(k.len() as int + 1) =~= v);
    assert(!is_ws(k[0]) && !is_ws(k[k.len() - 1]));
    lemma_trim_trimmed(k);
    lemma_trim_trimmed(v);
}

proof fn lemma_decimal_value(n: nat)
    ensures
        is_trimmed(decimal_chars(n)),
        no_newline(decimal_chars(n)),
        decimal_chars(n).len() > 0,
        decimal_chars(n).last() != '\r',
{
    lemma_decimal_chars(n);
    let d = decimal_chars(n);
    assert(is_digit(d[0]) && is_digit(d[d.len() - 1]));
    assert forall|i: int| 0 <= i < d.len() implies #[trigger] d[i] != '\n' by {
        assert(is_digit(d[i]));
    }
}

proof fn lemma_line_shape(k: Seq<char>, v: Seq<char>)
    requires
        no_newline(k),
        k.len() > 0,
        no_newline(v),
        is_trimmed(v),
    ensures
        no_newline(k + seq!['='] + v),
        (k + seq!['='] + v).last() != '\r',
{
    let l = k + seq!['='] + v;
    assert forall|i: int| 0 <= i < l.len() implies #[trigger] l[i] != '\n' by {
        if i < k.len() {
            assert(l[i] == k[i]);
        } else if i > k.len() {
            assert(l[i] == v[i - k.len() - 1]);
        }
    }
    if v.len() > 0 {
        assert(l.last() == v.last());
        assert(is_ws('\r'));
    }
}

proof fn lemma_apply_cons(e: EntryView, l: Seq<char>, rest: Seq<Seq<char>>)
    ensures
        apply_entry_lines(e, seq![l] + rest) == apply_entry_lines(apply_entry_line(e, l), rest),
{
    let ls = seq![l] + rest;
    assert(ls[0] == l);
    assert(ls.drop_first() =~= rest);
}

proof fn lemma_keys_distinct()
    ensures
        key_host() != key_instance(),
        key_port() != key_instance() && key_port() != key_host(),
        key_w() != key_instance() && key_w() != key_host() && key_w() != key_port(),
        key_h() != key_instance() && key_h() != key_host() && key_h() != key_port() && key_h() != key_w(),
        key_fps() != key_instance() && key_fps() != key_host() && key_fps() != key_port() && key_fps() != key_w() && key_fps() != key_h(),
        key_max_w() != key_instance() && key_max_w() != key_host() && key_max_w() != key_port() && key_max_w() != key_w()
            && key_max_w() != key_h() && key_max_w() != key_fps(),
        key_max_h() != key_instance() && key_max_h() != key_host() && key_max_h() != key_port() && key_max_h() != key_w()
            && key_max_h() != key_h() && key_max_h() != key_fps() && key_max_h() != key_max_w(),
        key_max_fps() != key_instance() && key_max_fps() != key_host() && key_max_fps() != key_port() && key_max_fps() != key_w()
            && key_max_fps() != key_h() && key_max_fps() != key_fps() && key_max_fps() != key_max_w() && key_max_fps() != key_max_h(),
{
    assert(key_host().len() != key_instance().len());
    assert(key_port()[0] != key_host()[0]);
    assert(key_w()[0] != key_h()[0]);
    assert(key_max_w()[4] != key_max_h()[4]);
    assert(key_max_fps().len() != key_max_w().len());
    assert(key_fps().len() != key_port().len());
}

proof fn lemma_key_chars(k: Seq<char>)
    requires
        k == key_instance() || k == key_host() || k == key_port() || k == key_w() || k == key_h() || k == key_fps()
            || k == key_max_w() || k == key_max_h() || k == key_max_fps(),
    ensures
        k.len() > 0,
        no_newline(k),
        forall|i: int| 0 <= i < k.len() ==> #[trigger] k[i] != '=' && !is_ws(k[i]),
{
    assert forall|i: int| 0 <= i < k.len() implies #[trigger] k[i] != '=' && !is_ws(k[i]) && k[i] != '\n' by {
        assert(('a' <= k[i] && k[i] <= 'z') || k[i] == '_');
    }
}

/// The lines of a rendered entry.
proof fn lemma_rendered_lines(ls: Seq<Seq<char>>)
    requires
        ls.len() == 9,
        forall|i: int| 0 <= i < 9 ==> no_newline(#[trigger] ls[i]) && ls[i].last() != '\r' && ls[i].len() > 0,
    ensures
        lines(ls[0] + seq!['\n'] + (ls[1] + seq!['\n'] + (ls[2] + seq!['\n'] + (ls[3] + seq!['\n'] + (ls[4] + seq!['\n']
            + (ls[5] + seq!['\n'] + (ls[6] + seq!['\n'] + (ls[7] + seq!['\n'] + (ls[8] + seq!['\n']))))))))) == ls,
{
    let t9 = ls[8] + seq!['\n'];
    let t8 = ls[7] + seq!['\n'] + t9;
    let t7 = ls[6] + seq!['\n'] + t8;
    let t6 = ls[5] + seq!['\n'] + t7;
    let t5 = ls[4] + seq!['\n'] + t6;
    let t4 = ls[3] + seq!['\n'] + t5;
    let t3 = ls[2] + seq!['\n'] + t4;
    let t2 = ls[1] + seq!['\n'] + t3;
    let t1 = ls[0] + seq!['\n'] + t2;
    assert(no_newline(ls[8]) && no_newline(ls[7]) && no_newline(ls[6]) && no_newline(ls[5]) && no_newline(ls[4]));
    assert(no_newline(ls[3]) && no_newline(ls[2]) && no_newline(ls[1]) && no_newline(ls[0]));
    lemma_lines_cons(ls[8], Seq::empty());
    assert(ls[8] + seq!['\n'] + Seq::<char>::empty() =~= t9);
    assert(lines(Seq::<char>::empty()) =~= Seq::<Seq<char>>::empty());
    lemma_lines_cons(ls[7], t9);
    lemma_lines_cons(ls[6], t8);
    lemma_lines_cons(ls[5], t7);
    lemma_lines_cons(ls[4], t6);
    lemma_lines_cons(ls[3], t5);
    lemma_lines_cons(ls[2], t4);
    lemma_lines_cons(ls[1], t3);
    lemma_lines_cons(ls[0], t2);
    assert(lines(t1) =~= ls);
}

/// What the registry holds of a receiver is what reading it back gives:
/// its name, address, port and session, with the caps it was written with
/// (the session values where none were set, 15 fps where neither was). This
/// holds for every receiver with a non-zero port whose name and address have
/// no line break and no leading or trailing white space.
#[verifier::rlimit(40)]
pub proof fn lemma_registry_roundtrip(ad: StreamAdvertisement, default_instance: Seq<char>, default_host: Seq<char>)
    requires
        ad.port != 0,
        no_newline(ad.instance_name@),
        no_newline(ad.host@),
        is_trimmed(ad.instance_name@),
        is_trimmed(ad.host@),
    ensures
        parsed_entry(rendered_entry(ad), default_instance, default_host) == Some(EntryView {
            max_width: if ad.max_width > 0 { ad.max_width } else { ad.width },
            max_height: if ad.max_height > 0 { ad.max_height } else { ad.height },
            max_fps: if ad.max_fps > 0 { ad.max_fps } else { 15 },
            ..entry_of(ad)
        }),
{
    let max_w = if ad.max_width > 0 { ad.max_width } else { ad.width };
    let max_h = if ad.max_height > 0 { ad.max_height } else { ad.height };
    let max_fps: u32 = if ad.max_fps > 0 { ad.max_fps } else { 15 };
    let name = ad.instance_name@;
    let host = ad.host@;
    let dp = decimal_chars(ad.port as nat);
    let dw = decimal_chars(ad.width as nat);
    let dh = decimal_chars(ad.height as nat);
    let df = decimal_chars(ad.fps as nat);
    let dmw = decimal_chars(max_w as nat);
    let dmh = decimal_chars(max_h as nat);
    let dmf = decimal_chars(max_fps as nat);
    lemma_decimal_value(ad.port as nat);
    lemma_decimal_value(ad.width as nat);
    lemma_decimal_value(ad.height as nat);
    lemma_decimal_value(ad.fps as nat);
    lemma_decimal_value(max_w as nat);
    lemma_decimal_value(max_h as nat);
    lemma_decimal_value(max_fps as nat);
    lemma_parse_decimal_roundtrip(ad.port as nat, u16::MAX as nat);
    lemma_parse_decimal_roundtrip(ad.width as nat, u32::MAX as nat);
    lemma_parse_decimal_roundtrip(ad.height as nat, u32::MAX as nat);
    lemma_parse_decimal_roundtrip(ad.fps as nat, u32::MAX as nat);
    lemma_parse_decimal_roundtrip(max_w as nat, u32::MAX as nat);
    lemma_parse_decimal_roundtrip(max_h as nat, u32::MAX as nat);
    lemma_parse_decimal_roundtrip(max_fps as nat, u32::MAX as nat);
    lemma_key_chars(key_instance());
    lemma_key_chars(key_host());
    lemma_key_chars(key_port());
    lemma_key_chars(key_w());
    lemma_key_chars(key_h());
    lemma_key_chars(key_fps());
    lemma_key_chars(key_max_w());
    lemma_key_chars(key_max_h());
    lemma_key_chars(key_max_fps());
    lemma_keys_distinct();

    let l1 = key_instance() + seq!['='] + name;
    let l2 = key_host() + seq!['='] + host;
    let l3 = key_port() + seq!['='] + dp;
    let l4 = key_w() + seq!['='] + dw;
    let l5 = key_h() + seq!['='] + dh;
    let l6 = key_fps() + seq!['='] + df;
    let l7 = key_max_w() + seq!['='] + dmw;
    let l8 = key_max_h() + seq!['='] + dmh;
    let l9 = key_max_fps() + seq!['='] + dmf;
    lemma_line_shape(key_instance(), name);
    lemma_line_shape(key_host(), host);
    lemma_line_shape(key_port(), dp);
    lemma_line_shape(key_w(), dw);
    lemma_line_shape(key_h(), dh);
    lemma_line_shape(key_fps(), df);
    lemma_line_shape(key_max_w(), dmw);
    lemma_line_shape(key_max_h(), dmh);
    lemma_line_shape(key_max_fps(), dmf);
    let ls = seq![l1, l2, l3, l4, l5, l6, l7, l8, l9];
    assert forall|i: int| 0 <= i < 9 implies no_newline(#[trigger] ls[i]) && ls[i].last() != '\r' && ls[i].len() > 0 by {}
    lemma_rendered_lines(ls);
    assert(rendered_entry(ad) =~= ls[0] + seq!['\n'] + (ls[1] + seq!['\n'] + (ls[2] + seq!['\n'] + (ls[3] + seq!['\n'] + (ls[4] + seq!['\n']
            + (ls[5] + seq!['\n'] + (ls[6] + seq!['\n'] + (ls[7] + seq!['\n'] + (ls[8] + seq!['\n'])))))))));

    let e0 = default_entry(default_instance, default_host);
    let e1 = EntryView { instance: name, ..e0 };
    let e2 = EntryView { host: host, ..e1 };
    let e3 = EntryView { port: ad.port, ..e2 };
    let e4 = EntryView { width: ad.width, ..e3 };
    let e5 = EntryView { height: ad.height, ..e4 };
    let e6 = EntryView { fps: ad.fps, ..e5 };
    let e7 = EntryView { max_width: max_w, ..e6 };
    let e8 = EntryView { max_height: max_h, ..e7 };
    let e9 = EntryView { max_fps: max_fps, ..e8 };
    lemma_key_value_line(e0, key_instance(), name);
    lemma_key_value_line(e1, key_host(), host);
    lemma_key_value_line(e2, key_port(), dp);
    lemma_key_value_line(e3, key_w(), dw);
    lemma_key_value_line(e4, key_h(), dh);
    lemma_key_value_line(e5, key_fps(), df);
    lemma_key_value_line(e6, key_max_w(), dmw);
    lemma_key_value_line(e7, key_max_h(), dmh);
    lemma_key_value_line(e8, key_max_fps(), dmf);
    let r9 = seq![l9];
    let r8 = seq![l8] + r9;
    let r7 = seq![l7] + r8;
    let r6 = seq![l6] + r7;
    let r5 = seq![l5] + r6;
    let r4 = seq![l4] + r5;
    let r3 = seq![l3] + r4;
    let r2 = seq![l2] + r3;
    let r1 = seq![l1] + r2;
    assert(r1 =~= ls);
    lemma_apply_cons(e0, l1, r2);
    lemma_apply_cons(e1, l2, r3);
    lemma_apply_cons(e2, l3, r4);
    lemma_apply_cons(e3, l4, r5);
    lemma_apply_cons(e4, l5, r6);
    lemma_apply_cons(e5, l6, r7);
    lemma_apply_cons(e6, l7, r8);
    lemma_apply_cons(e7, l8, r9);
    lemma_apply_cons(e8, l9, Seq::empty());
    assert(seq![l9] + Seq::<Seq<char>>::empty() =~= r9);
    assert(apply_entry_lines(e9, Seq::<Seq<char>>::empty()) == e9);
}

} // verus!
