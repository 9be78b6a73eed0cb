//! Boot-configuration parser: `KEY = value` pairs, one per line, with
//! leading and trailing whitespace trimmed. Recognised keys are `CFGVER`
//! (must parse to 1), `KERNEL`, `CMDLINE` and `MODULE` (repeatable);
//! unknown keys and unparsable versions are ignored. Input that is not
//! valid UTF-8 is refused.

use vstd::prelude::*;

use crate::errors::ErrorCode;
use crate::fat::{find_byte, spec_find_byte, subvec};

verus! {

/// One module stanza of the configuration.
pub struct ModuleConfig {
    pub path: Vec<u8>,
    pub name: Vec<u8>,
    pub addr: usize,
    pub size: usize,
}

/// The parsed boot configuration.
pub struct Config {
    pub version: u8,
    pub kernel_path: Vec<u8>,
    pub kernel_cmdline: Vec<u8>,
    pub modules: Vec<ModuleConfig>,
}

impl Config {
    /// The mathematical content of a configuration: version, kernel path,
    /// command line, and the module paths in order.
    pub open spec fn model(&self) -> (u8, Seq<u8>, Seq<u8>, Seq<Seq<u8>>) {
        (
            self.version,
            self.kernel_path@,
            self.kernel_cmdline@,
            Seq::new(self.modules@.len(), |i: int| self.modules@[i].path@),
        )
    }
}

/// ASCII whitespace, as trimmed from keys, values and lines.
pub open spec fn spec_is_ws(b: u8) -> bool {
    b == 32 || b == 9 || b == 10 || b == 11 || b == 12 || b == 13
}

/// `s` without leading whitespace.
pub open spec fn spec_trim_start(s: Seq<u8>) -> Seq<u8>
    decreases s.len(),
{
    if s.len() > 0 && spec_is_ws(s[0]) {
        spec_trim_start(s.drop_first())
    } else {
        s
    }
}

/// `s` without trailing whitespace.
pub open spec fn spec_trim_end(s: Seq<u8>) -> Seq<u8>
    decreases s.len(),
{
    if s.len() > 0 && spec_is_ws(s.last()) {
        spec_trim_end(s.drop_last())
    } else {
        s
    }
}

/// `s` without leading or trailing whitespace.
pub open spec fn spec_trim(s: Seq<u8>) -> Seq<u8> {
    spec_trim_end(spec_trim_start(s))
}

/// The numeric value of a digit string, most significant first.
pub open spec fn spec_num_val(s: Seq<u8>) -> int
    decreases s.len(),
{
    if s.len() == 0 {
        0
    } else {
        spec_num_val(s.drop_last()) * 10 + (s.last() - 48)
    }
}

/// Whether every byte of `s` is an ASCII digit.
pub open spec fn spec_all_digits(s: Seq<u8>) -> bool {
    forall|i: int| 0 <= i < s.len() ==> 48 <= #[trigger] s[i] <= 57
}

/// The value `s` parses to as an unsigned 8-bit decimal number (an optional
/// leading `+`, then digits), if any.
pub open spec fn spec_parse_u8(s: Seq<u8>) -> Option<u8> {
    let t = if s.len() >= 1 && s[0] == 43 {
        s.drop_first()
    } else {
        s
    };
    if t.len() == 0 || !spec_all_digits(t) || spec_num_val(t) > 255 {
        None
    } else {
        Some(spec_num_val(t) as u8)
    }
}

/// The key `CFGVER`.
pub open spec fn spec_key_cfgver() -> Seq<u8> {
    seq![67u8, 70u8, 71u8, 86u8, 69u8, 82u8]
}

/// The key `KERNEL`.
pub open spec fn spec_key_kernel() -> Seq<u8> {
    seq![75u8, 69u8, 82u8, 78u8, 69u8, 76u8]
}

/// The key `CMDLINE`.
pub open spec fn spec_key_cmdline() -> Seq<u8> {
    seq![67u8, 77u8, 68u8, 76u8, 73u8, 78u8, 69u8]
}

/// The key `MODULE`.
pub open spec fn spec_key_module() -> Seq<u8> {
    seq![77u8, 79u8, 68u8, 85u8, 76u8, 69u8]
}

/// The configuration state after applying one line: lines without `=` are
/// ignored; otherwise the trimmed key selects the field the trimmed value
/// updates. An unparsable `CFGVER` and unknown keys leave the state
/// unchanged.
pub open spec fn spec_apply_line(m: (u8, Seq<u8>, Seq<u8>, Seq<Seq<u8>>), line: Seq<u8>) -> (
    u8,
    Seq<u8>,
    Seq<u8>,
    Seq<Seq<u8>>,
) {
    let t = spec_trim(line);
    match spec_find_byte(t, 0, 61) {
        None => m,
        Some(i) => {
            let key = spec_trim(t.subrange(0, i));
            let val = spec_trim(t.subrange(i + 1, t.len() as int));
            if key == spec_key_cfgver() {
                match spec_parse_u8(val) {
                    Some(v) => (v, m.1, m.2, m.3),
                    None => m,
                }
            } else if key == spec_key_kernel() {
                (m.0, val, m.2, m.3)
            } else if key == spec_key_cmdline() {
                (m.0, m.1, val, m.3)
            } else if key == spec_key_module() {
                (m.0, m.1, m.2, m.3.push(val))
            } else {
                m
            }
        },
    }
}

/// The configuration state after applying every line of `s` from byte
/// `pos` on. Lines are split at `\n`; a carriage return immediately before
/// the newline is dropped; a final fragment without a newline is a line.
pub open spec fn spec_cfg_lines(
    s: Seq<u8>,
    pos: int,
    m: (u8, Seq<u8>, Seq<u8>, Seq<Seq<u8>>),
) -> (u8, Seq<u8>, Seq<u8>, Seq<Seq<u8>>)
    decreases s.len() - pos,
{
    if pos < 0 || pos >= s.len() {
        m
    } else {
        match spec_find_byte(s, pos, 10) {
            None => spec_apply_line(m, s.subrange(pos, s.len() as int)),
            Some(nl) => if !(pos <= nl < s.len()) {
                m
            } else {
                let line = if nl > pos && s[nl - 1] == 13 {
                    s.subrange(pos, nl - 1)
                } else {
                    s.subrange(pos, nl)
                };
                spec_cfg_lines(s, nl + 1, spec_apply_line(m, line))
            },
        }
    }
}

/// The outcome of parsing configuration bytes `s`: refused unless valid
/// UTF-8; the folded key/value state; refused unless the version is 1.
#[verifier::opaque]
pub open spec fn spec_config(s: Seq<u8>) -> Result<
    (u8, Seq<u8>, Seq<u8>, Seq<Seq<u8>>),
    ErrorCode,
> {
    if !spec_utf8(s, 0) {
        Result::Err(ErrorCode::ConfigFormatError)
    } else {
        let m = spec_cfg_lines(s, 0, (0u8, Seq::empty(), Seq::empty(), Seq::empty()));
        if m.0 != 1 {
            Result::Err(ErrorCode::UnsupportedConfig)
        } else {
            Result::Ok(m)
        }
    }
}

/// Whether `b` is a UTF-8 continuation byte.
pub open spec fn spec_utf8_cont(b: u8) -> bool {
    0x80 <= b <= 0xBF
}

/// Whether `s` is well-formed UTF-8 from byte `pos` on: the shortest-form
/// encodings of scalar values up to U+10FFFF, excluding surrogates.
pub open spec fn spec_utf8(s: Seq<u8>, pos: int) -> bool
    decreases s.len() - pos,
{
    if pos < 0 || pos >= s.len() {
        true
    } else {
        let b0 = s[pos];
        if b0 < 0x80 {
            spec_utf8(s, pos + 1)
        } else if 0xC2 <= b0 <= 0xDF {
            pos + 1 < s.len() && spec_utf8_cont(s[pos + 1]) && spec_utf8(s, pos + 2)
        } else if b0 == 0xE0 {
            pos + 2 < s.len() && 0xA0 <= s[pos + 1] <= 0xBF && spec_utf8_cont(s[pos + 2])
                && spec_utf8(s, pos + 3)
        } else if (0xE1 <= b0 <= 0xEC) || b0 == 0xEE || b0 == 0xEF {
            pos + 2 < s.len() && spec_utf8_cont(s[pos + 1]) && spec_utf8_cont(s[pos + 2])
                && spec_utf8(s, pos + 3)
        } else if b0 == 0xED {
            pos + 2 < s.len() && 0x80 <= s[pos + 1] <= 0x9F && spec_utf8_cont(s[pos + 2])
                && spec_utf8(s, pos + 3)
        } else if b0 == 0xF0 {
            pos + 3 < s.len() && 0x90 <= s[pos + 1] <= 0xBF && spec_utf8_cont(s[pos + 2])
                && spec_utf8_cont(s[pos + 3]) && spec_utf8(s, pos + 4)
        } else if 0xF1 <= b0 <= 0xF3 {
            pos + 3 < s.len() && spec_utf8_cont(s[pos + 1]) && spec_utf8_cont(s[pos + 2])
                && spec_utf8_cont(s[pos + 3]) && spec_utf8(s, pos + 4)
        } else if b0 == 0xF4 {
            pos + 3 < s.len() && 0x80 <= s[pos + 1] <= 0x8F && spec_utf8_cont(s[pos + 2])
                && spec_utf8_cont(s[pos + 3]) && spec_utf8(s, pos + 4)
        } else {
            false
        }
    }
}

/// Check that `v` is well-formed UTF-8.
pub fn utf8_check(v: &Vec<u8>) -> (r: bool)
    ensures
        r == spec_utf8(v@, 0),
{
    let n = v.len();
    let mut i: usize = 0;
    while i < n
        invariant
            i <= n,
            n == v@.len(),
            spec_utf8(v@, 0) == spec_utf8(v@, i as int),
        decreases n - i,
    {
        let b0 = v[i];
        if b0 < 0x80 {
            i = i + 1;
        } else if 0xC2 <= b0 && b0 <= 0xDF {
            if !(n - i > 1 && 0x80 <= v[i + 1] && v[i + 1] <= 0xBF) {
                return false;
            }
            i = i + 2;
        } else if b0 == 0xE0 {
            if !(n - i > 2 && 0xA0 <= v[i + 1] && v[i + 1] <= 0xBF && 0x80 <= v[i + 2] && v[i
                + 2] <= 0xBF) {
                return false;
            }
            i = i + 3;
        } else if (0xE1 <= b0 && b0 <= 0xEC) || b0 == 0xEE || b0 == 0xEF {
            if !(n - i > 2 && 0x80 <= v[i + 1] && v[i + 1] <= 0xBF && 0x80 <= v[i + 2] && v[i
                + 2] <= 0xBF) {
                return false;
            }
            i = i + 3;
        } else if b0 == 0xED {
            if !(n - i > 2 && 0x80 <= v[i + 1] && v[i + 1] <= 0x9F && 0x80 <= v[i + 2] && v[i
                + 2] <= 0xBF) {
                return false;
            }
            i = i + 3;
        } else if b0 == 0xF0 {
            if !(n - i > 3 && 0x90 <= v[i + 1] && v[i + 1] <= 0xBF && 0x80 <= v[i + 2] && v[i
                + 2] <= 0xBF && 0x80 <= v[i + 3] && v[i + 3] <= 0xBF) {
                return false;
            }
            i = i + 4;
        } else if 0xF1 <= b0 && b0 <= 0xF3 {
            if !(n - i > 3 && 0x80 <= v[i + 1] && v[i + 1] <= 0xBF && 0x80 <= v[i + 2] && v[i
                + 2] <= 0xBF && 0x80 <= v[i + 3] && v[i + 3] <= 0xBF) {
                return false;
            }
            i = i + 4;
        } else if b0 == 0xF4 {
            if !(n - i > 3 && 0x80 <= v[i + 1] && v[i + 1] <= 0x8F && 0x80 <= v[i + 2] && v[i
                + 2] <= 0xBF && 0x80 <= v[i + 3] && v[i + 3] <= 0xBF) {
                return false;
            }
            i = i + 4;
        } else {
            return false;
        }
    }
    true
}

/// Whether `b` is ASCII whitespace.
fn is_ws(b: u8) -> (r: bool)
    ensures
        r == spec_is_ws(b),
{
    b == 32 || b == 9 || b == 10 || b == 11 || b == 12 || b == 13
}

/// Trim whitespace off both ends of the window `[from, to)` of `v`,
/// returning the trimmed window.
fn trim_in(v: &Vec<u8>, from: usize, to: usize) -> (r: (usize, usize))
    requires
        from <= to <= v@.len(),
    ensures
        from <= r.0 <= r.1 <= to,
        v@.subrange(r.0 as int, r.1 as int) == spec_trim(v@.subrange(from as int, to as int)),
{
    let mut lo = from;
    let mut hi = to;
    while lo < hi && is_ws(v[lo])
        invariant
            from <= lo <= hi <= to <= v@.len(),
            hi == to,
            spec_trim_start(v@.subrange(lo as int, to as int)) == spec_trim_start(
                v@.subrange(from as int, to as int),
            ),
        decreases hi - lo,
    {
        proof {
            assert(v@.subrange(lo as int, to as int).drop_first() =~= v@.subrange(
                lo + 1,
                to as int,
            ));
        }
        lo = lo + 1;
    }
    proof {
        assert(spec_trim_start(v@.subrange(lo as int, to as int)) == v@.subrange(
            lo as int,
            to as int,
        ));
    }
    while hi > lo && is_ws(v[hi - 1])
        invariant
            from <= lo <= hi <= to <= v@.len(),
            spec_trim_start(v@.subrange(from as int, to as int)) == v@.subrange(
                lo as int,
                to as int,
            ) || spec_trim_end(v@.subrange(lo as int, hi as int)) == spec_trim_end(
                spec_trim_start(v@.subrange(from as int, to as int)),
            ),
            spec_trim_end(v@.subrange(lo as int, hi as int)) == spec_trim_end(
                spec_trim_start(v@.subrange(from as int, to as int)),
            ),
        decreases hi - lo,
    {
        proof {
            assert(v@.subrange(lo as int, hi as int).drop_last() =~= v@.subrange(
                lo as int,
                hi - 1,
            ));
        }
        hi = hi - 1;
    }
    proof {
        assert(spec_trim_end(v@.subrange(lo as int, hi as int)) == v@.subrange(
            lo as int,
            hi as int,
        ));
    }
    (lo, hi)
}

/// Find `b` in the window `[from, to)` of `v`.
fn find_byte_in(v: &Vec<u8>, from: usize, to: usize, b: u8) -> (r: Option<usize>)
    requires
        from <= to <= v@.len(),
    ensures
        match r {
            Some(i) => from <= i < to && spec_find_byte(
                v@.subrange(from as int, to as int),
                0,
                b,
            ) == Some(i - from),
            None => spec_find_byte(v@.subrange(from as int, to as int), 0, b) is None,
        },
{
    let ghost sub = v@.subrange(from as int, to as int);
    let mut j: usize = from;
    while j < to
        invariant
            from <= j <= to <= v@.len(),
            sub == v@.subrange(from as int, to as int),
            spec_find_byte(sub, 0, b) == spec_find_byte(sub, j - from, b),
        decreases to - j,
    {
        if v[j] == b {
            proof {
                assert(sub[j - from] == v@[j as int]);
            }
            return Some(j);
        }
        proof {
            assert(sub[j - from] == v@[j as int]);
        }
        j = j + 1;
    }
    None
}

/// Parse the window `[from, to)` of `v` as an unsigned 8-bit decimal
/// number.
fn parse_u8_in(v: &Vec<u8>, from: usize, to: usize) -> (r: Option<u8>)
    requires
        from <= to <= v@.len(),
    ensures
        r == spec_parse_u8(v@.subrange(from as int, to as int)),
{
    let ghost whole = v@.subrange(from as int, to as int);
    let mut lo = from;
    let mut plus: bool = false;
    if lo < to && v[lo] == 43 {
        proof {
            assert(whole[0] == v@[from as int]);
            assert(whole.drop_first() =~= v@.subrange(from + 1, to as int));
        }
        plus = true;
        lo = lo + 1;
    }
    proof {
        if !plus {
            assert(!(whole.len() >= 1 && whole[0] == 43));
        }
    }
    let ghost t = v@.subrange(lo as int, to as int);
    proof {
        assert(t == (if whole.len() >= 1 && whole[0] == 43 {
            whole.drop_first()
        } else {
            whole
        }));
    }
    if lo == to {
        return None;
    }
    let mut acc: u32 = 0;
    let mut over: bool = false;
    let mut j: usize = lo;
    while j < to
        invariant
            from <= lo <= j <= to <= v@.len(),
            whole == v@.subrange(from as int, to as int),
            t == (if whole.len() >= 1 && whole[0] == 43 {
                whole.drop_first()
            } else {
                whole
            }),
            t == v@.subrange(lo as int, to as int),
            spec_all_digits(t.subrange(0, j - lo)),
            !over ==> acc == spec_num_val(t.subrange(0, j - lo)) && acc <= 255,
            over ==> spec_num_val(t.subrange(0, j - lo)) > 255,
        decreases to - j,
    {
        let b = v[j];
        if b < 48 || b > 57 {
            proof {
                assert(t[j - lo] == v@[j as int]);
                assert(!(48 <= t[j - lo] <= 57));
                assert(!spec_all_digits(t));
            }
            return None;
        }
        proof {
            assert(t[j - lo] == v@[j as int]);
            assert(t.subrange(0, j - lo + 1).drop_last() =~= t.subrange(0, j - lo));
            assert(t.subrange(0, j - lo + 1).last() == t[j - lo]);
        }
        if over {
            proof {
                assert(spec_num_val(t.subrange(0, j - lo + 1)) > 255);
            }
        } else {
            acc = acc * 10 + (b - 48) as u32;
            if acc > 255 {
                over = true;
            }
        }
        j = j + 1;
    }
    proof {
        assert(t.subrange(0, to - lo) =~= t);
    }
    if over {
        None
    } else {
        Some(acc as u8)
    }
}

/// Whether the window `[from, to)` of `v` equals the bytes of `w`.
fn window_eq(v: &Vec<u8>, from: usize, to: usize, w: &Vec<u8>) -> (r: bool)
    requires
        from <= to <= v@.len(),
    ensures
        r == (v@.subrange(from as int, to as int) == w@),
{
    let m = w.len();
    if to - from != m {
        proof {
            assert(v@.subrange(from as int, to as int).len() != w@.len());
        }
        return false;
    }
    let mut j: usize = 0;
    while j < m
        invariant
            from + m <= to + m,
            to - from == m,
            from <= to <= v@.len(),
            m == w@.len(),
            j <= m,
            forall|q: int| 0 <= q < j ==> v@.subrange(from as int, to as int)[q] == w@[q],
        decreases m - j,
    {
        if v[from + j] != w[j] {
            proof {
                assert(v@.subrange(from as int, to as int)[j as int] != w@[j as int]);
            }
            return false;
        }
        proof {
            assert(v@.subrange(from as int, to as int)[j as int] == w@[j as int]);
        }
        j = j + 1;
    }
    proof {
        assert(v@.subrange(from as int, to as int) =~= w@);
    }
    true
}

/// The literal bytes of `CFGVER`.
fn key_cfgver() -> (r: Vec<u8>)
    ensures
        r@ == spec_key_cfgver(),
{
    let mut v: Vec<u8> = Vec::new();
    v.push(67);
    v.push(70);
    v.push(71);
    v.push(86);
    v.push(69);
    v.push(82);
    proof {
        assert(v@ =~= spec_key_cfgver());
    }
    v
}

/// The literal bytes of `KERNEL`.
fn key_kernel() -> (r: Vec<u8>)
    ensures
        r@ == spec_key_kernel(),
{
    let mut v: Vec<u8> = Vec::new();
    v.push(75);
    v.push(69);
    v.push(82);
    v.push(78);
    v.push(69);
    v.push(76);
    proof {
        assert(v@ =~= spec_key_kernel());
    }
    v
}

/// The literal bytes of `CMDLINE`.
fn key_cmdline() -> (r: Vec<u8>)
    ensures
        r@ == spec_key_cmdline(),
{
    let mut v: Vec<u8> = Vec::new();
    v.push(67);
    v.push(77);
    v.push(68);
    v.push(76);
    v.push(73);
    v.push(78);
    v.push(69);
    proof {
        assert(v@ =~= spec_key_cmdline());
    }
    v
}

/// The literal bytes of `MODULE`.
fn key_module() -> (r: Vec<u8>)
    ensures
        r@ == spec_key_module(),
{
    let mut v: Vec<u8> = Vec::new();
    v.push(77);
    v.push(79);
    v.push(68);
    v.push(85);
    v.push(76);
    v.push(69);
    proof {
        assert(v@ =~= spec_key_module());
    }
    v
}

impl Config {
    /// Parse configuration bytes. Refused with `ConfigFormatError` unless
    /// valid UTF-8 and with `UnsupportedConfig` unless `CFGVER` parses to 1;
    /// otherwise the parsed configuration is returned, with every module's
    /// name equal to its path and its load address and size zero.
    pub fn load(data: &Vec<u8>) -> (r: Result<Config, ErrorCode>)
        ensures
            match r {
                Ok(c) => spec_config(data@) == Result::<
                    (u8, Seq<u8>, Seq<u8>, Seq<Seq<u8>>),
                    ErrorCode,
                >::Ok(c.model()) && (forall|k: int|
                    0 <= k < c.modules@.len() ==> (#[trigger] c.modules@[k]).name@
                        == c.modules@[k].path@ && c.modules@[k].addr == 0 && c.modules@[k].size
                        == 0),
                Err(e) => spec_config(data@) == Result::<
                    (u8, Seq<u8>, Seq<u8>, Seq<Seq<u8>>),
                    ErrorCode,
                >::Err(e),
            },
    {
        proof {
            reveal(spec_config);
        }
        if !utf8_check(data) {
            return Err(ErrorCode::ConfigFormatError);
        }

        let n = data.len();
        let mut version: u8 = 0;
        let mut kernel_path: Vec<u8> = Vec::new();
        let mut kernel_cmdline: Vec<u8> = Vec::new();
        let mut modules: Vec<ModuleConfig> = Vec::new();

        let ghost init = (0u8, Seq::<u8>::empty(), Seq::<u8>::empty(), Seq::<Seq<u8>>::empty());
        proof {
            assert(kernel_path@ =~= Seq::<u8>::empty());
            assert(kernel_cmdline@ =~= Seq::<u8>::empty());
            assert(Seq::new(modules@.len(), |i: int| modules@[i].path@) =~= Seq::<
                Seq<u8>,
            >::empty());
        }

        let kw_cfgver = key_cfgver();
        let kw_kernel = key_kernel();
        let kw_cmdline = key_cmdline();
        let kw_module = key_module();

        let mut pos: usize = 0;
        while pos < n
            invariant
                kw_cfgver@ == spec_key_cfgver(),
                kw_kernel@ == spec_key_kernel(),
                kw_cmdline@ == spec_key_cmdline(),
                kw_module@ == spec_key_module(),
                pos <= n,
                n == data@.len(),
                spec_cfg_lines(data@, 0, init) == spec_cfg_lines(
                    data@,
                    pos as int,
                    (
                        version,
                        kernel_path@,
                        kernel_cmdline@,
                        Seq::new(modules@.len(), |i: int| modules@[i].path@),
                    ),
                ),
                init == (0u8, Seq::<u8>::empty(), Seq::<u8>::empty(), Seq::<Seq<u8>>::empty()),
                forall|k: int|
                    0 <= k < modules@.len() ==> (#[trigger] modules@[k]).name@
                        == modules@[k].path@ && modules@[k].addr == 0 && modules@[k].size == 0,
            decreases n - pos,
        {
            let ghost m0 = (
                version,
                kernel_path@,
                kernel_cmdline@,
                Seq::new(modules@.len(), |i: int| modules@[i].path@),
            );
            proof {
                crate::fat::lemma_find_byte_bounds(data@, pos as int, 10);
            }
            let (lo, hi, next) = match find_byte(data, pos, 10) {
                Some(nl) => {
                    if nl > pos && data[nl - 1] == 13 {
                        (pos, nl - 1, nl + 1)
                    } else {
                        (pos, nl, nl + 1)
                    }
                },
                None => (pos, n, n),
            };
            let ghost line = data@.subrange(lo as int, hi as int);

            let (tlo, thi) = trim_in(data, lo, hi);
            let ghost t = data@.subrange(tlo as int, thi as int);
            match find_byte_in(data, tlo, thi, 61) {
                None => {
                    proof {
                        assert(spec_apply_line(m0, line) == m0);
                    }
                },
                Some(eq_abs) => {
                    let ghost i_rel = eq_abs - tlo;
                    let (klo, khi) = trim_in(data, tlo, eq_abs);
                    let (vlo, vhi) = trim_in(data, eq_abs + 1, thi);
                    let ghost key = data@.subrange(klo as int, khi as int);
                    let ghost val = data@.subrange(vlo as int, vhi as int);
                    proof {
                        assert(t.subrange(0, i_rel) =~= data@.subrange(tlo as int, eq_abs as int));
                        assert(t.subrange(i_rel + 1, t.len() as int) =~= data@.subrange(
                            eq_abs + 1,
                            thi as int,
                        ));
                    }

                    let is_cfgver = window_eq(data, klo, khi, &kw_cfgver);
                    let is_kernel = window_eq(data, klo, khi, &kw_kernel);
                    let is_cmdline = window_eq(data, klo, khi, &kw_cmdline);
                    let is_module = window_eq(data, klo, khi, &kw_module);

                    if is_cfgver {
                        match parse_u8_in(data, vlo, vhi) {
                            Some(parsed) => {
                                version = parsed;
                            },
                            None => {},
                        }
                    } else if is_kernel {
                        kernel_path = subvec(data, vlo, vhi);
                    } else if is_cmdline {
                        kernel_cmdline = subvec(data, vlo, vhi);
                    } else if is_module {
                        let md = ModuleConfig {
                            path: subvec(data, vlo, vhi),
                            name: subvec(data, vlo, vhi),
                            addr: 0,
                            size: 0,
                        };
                        modules.push(md);
                        proof {
                            assert(Seq::new(modules@.len(), |i: int| modules@[i].path@) =~= m0.3
                                .push(val));
                        }
                    }
                },
            }
            proof {
                assert(Seq::new(modules@.len(), |i: int| modules@[i].path@) =~= spec_apply_line(
                    m0,
                    line,
                ).3);
                assert((
                    version,
                    kernel_path@,
                    kernel_cmdline@,
                    Seq::new(modules@.len(), |i: int| modules@[i].path@),
                ) == spec_apply_line(m0, line));
            }
            pos = next;
        }

        if version != 1 {
            return Err(ErrorCode::UnsupportedConfig);
        }

        Ok(Config { version, kernel_path, kernel_cmdline, modules })
    }

    /// Parse one `MODULE` value: the path names the module, the name
    /// defaults to the path, and address and size are set at module load.
    pub fn parse_module(cfg: &Vec<u8>) -> (r: Option<ModuleConfig>)
        ensures
            r matches Some(md) && md.path@ == cfg@ && md.name@ == cfg@ && md.addr == 0 && md.size
                == 0,
    {
        let md = ModuleConfig {
            path: subvec(cfg, 0, cfg.len()),
            name: subvec(cfg, 0, cfg.len()),
            addr: 0,
            size: 0,
        };
        proof {
            assert(cfg@.subrange(0, cfg@.len() as int) =~= cfg@);
        }
        Some(md)
    }
}

} // verus!
