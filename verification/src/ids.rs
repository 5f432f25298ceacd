//! Workflow and task identifiers: 128-bit UUIDs with a textual form.
//!
//! An identifier's canonical text is the hyphenated lower-case UUID
//! (`xxxxxxxx-xxxx-xxxx-xxxx-xxxxxxxxxxxx`). Reading accepts, like the
//! common UUID libraries, the simple form (32 hex digits), the hyphenated
//! form, the braced form `{...}` and the URN form `urn:uuid:...`, with hex
//! digits of either case.
use vstd::prelude::*;

use crate::text::{chars_of, concat_chars, has_prefix, string_of, strip_prefix_or_keep, strip_prefix_or_keep_exec};

verus! {

/// Raft node identifier.
pub type NodeId = u64;

// ---------------------------------------------------------------------
// Hex digits
// ---------------------------------------------------------------------

/// The value of a hex digit, if `c` is one.
pub open spec fn hex_digit_value(c: char) -> Option<nat> {
    if '0' <= c <= '9' {
        Some((c as u32 - 48) as nat)
    } else if 'a' <= c <= 'f' {
        Some((c as u32 - 87) as nat)
    } else if 'A' <= c <= 'F' {
        Some((c as u32 - 55) as nat)
    } else {
        None
    }
}

/// Whether every character of `s` is a hex digit.
pub open spec fn all_hex(s: Seq<char>) -> bool {
    forall|i: int| 0 <= i < s.len() ==> #[trigger] hex_digit_value(s[i]) is Some
}

/// The big-endian value of a sequence of hex digits.
pub open spec fn hex_value(s: Seq<char>) -> nat
    decreases s.len(),
{
    if s.len() == 0 {
        0
    } else {
        hex_value(s.drop_last()) * 16 + hex_digit_value(s.last()).unwrap_or(0)
    }
}

/// `16^n`.
pub open spec fn pow16(n: nat) -> nat
    decreases n,
{
    if n == 0 {
        1
    } else {
        16 * pow16((n - 1) as nat)
    }
}

/// The lower-case hex digit for `d < 16`.
pub open spec fn hex_char(d: nat) -> char {
    if d < 10 {
        ((d + 48) as u32) as char
    } else {
        ((d + 87) as u32) as char
    }
}

/// The last `n` hex digits of `v` (that is, `v mod 16^n` padded to `n`
/// digits), lower case, most significant first.
pub open spec fn hex_render(v: nat, n: nat) -> Seq<char>
    decreases n,
{
    if n == 0 {
        Seq::empty()
    } else {
        hex_render(v / 16, (n - 1) as nat).push(hex_char(v % 16))
    }
}

// ---------------------------------------------------------------------
// UUID text
// ---------------------------------------------------------------------

/// The 32 digits of a hyphenated UUID text (`8-4-4-4-12`), if `s` is one.
pub open spec fn hyphenated_digits(s: Seq<char>) -> Option<Seq<char>> {
    if s.len() == 36 && s[8] == '-' && s[13] == '-' && s[18] == '-' && s[23] == '-' {
        let d = s.subrange(0, 8) + s.subrange(9, 13) + s.subrange(14, 18) + s.subrange(19, 23)
            + s.subrange(24, 36);
        if all_hex(d) {
            Some(d)
        } else {
            None
        }
    } else {
        None
    }
}

/// The URN prefix of a UUID text.
pub open spec fn urn_prefix() -> Seq<char> {
    seq!['u', 'r', 'n', ':', 'u', 'u', 'i', 'd', ':']
}

/// The 32 hex digits of a UUID text in one of the accepted forms.
pub open spec fn uuid_digits(s: Seq<char>) -> Option<Seq<char>> {
    if s.len() == 32 {
        if all_hex(s) {
            Some(s)
        } else {
            None
        }
    } else if s.len() == 36 {
        hyphenated_digits(s)
    } else if s.len() == 38 && s[0] == '{' && s[37] == '}' {
        hyphenated_digits(s.subrange(1, 37))
    } else if s.len() == 45 && s.subrange(0, 9) == urn_prefix() {
        hyphenated_digits(s.subrange(9, 45))
    } else {
        None
    }
}

/// The UUID that a text denotes, if it is a UUID text.
pub open spec fn uuid_from_text(s: Seq<char>) -> Option<u128> {
    match uuid_digits(s) {
        Some(d) => Some(hex_value(d) as u128),
        None => None,
    }
}

/// The canonical (hyphenated, lower-case) text of a UUID.
pub open spec fn uuid_text(v: u128) -> Seq<char> {
    let h = hex_render(v as nat, 32);
    h.subrange(0, 8) + seq!['-'] + h.subrange(8, 12) + seq!['-'] + h.subrange(12, 16) + seq!['-']
        + h.subrange(16, 20) + seq!['-'] + h.subrange(20, 32)
}

proof fn lemma_pow16_mono(i: nat, j: nat)
    requires
        i <= j,
    ensures
        1 <= pow16(i) <= pow16(j),
    decreases j,
{
    if i < j {
        lemma_pow16_mono(i, (j - 1) as nat);
    } else {
        lemma_pow16_pos(i);
    }
}

proof fn lemma_pow16_pos(i: nat)
    ensures
        1 <= pow16(i),
    decreases i,
{
    if i > 0 {
        lemma_pow16_pos((i - 1) as nat);
    }
}

proof fn lemma_pow16_32()
    ensures
        pow16(32) == 0x1_0000_0000_0000_0000_0000_0000_0000_0000,
{
    reveal_with_fuel(pow16, 33);
}

proof fn lemma_hex_value_bound(s: Seq<char>)
    requires
        all_hex(s),
    ensures
        hex_value(s) < pow16(s.len()),
    decreases s.len(),
{
    if s.len() > 0 {
        assert(hex_digit_value(s[s.len() - 1]) is Some);
        assert(all_hex(s.drop_last()));
        lemma_hex_value_bound(s.drop_last());
    }
}

proof fn lemma_hex_char_value(d: nat)
    requires
        d < 16,
    ensures
        hex_digit_value(hex_char(d)) == Some(d),
{
}

proof fn lemma_hex_render(v: nat, n: nat)
    ensures
        hex_render(v, n).len() == n,
        all_hex(hex_render(v, n)),
        hex_value(hex_render(v, n)) == v % pow16(n),
    decreases n,
{
    if n > 0 {
        lemma_hex_render(v / 16, (n - 1) as nat);
        lemma_hex_char_value(v % 16);
        let r = hex_render(v, n);
        let p = hex_render(v / 16, (n - 1) as nat);
        assert(r.drop_last() =~= p);
        assert forall|i: int| 0 <= i < r.len() implies #[trigger] hex_digit_value(r[i]) is Some by {
            if i < r.len() - 1 {
                assert(r[i] == p[i]);
            }
        }
        lemma_pow16_mono(0, (n - 1) as nat);
        vstd::arithmetic::div_mod::lemma_mod_breakdown(v as int, 16, pow16((n - 1) as nat) as int);
    } else {
        assert(v % 1 == 0);
    }
}

/// The UUID text of `v` reads back as `v`.
pub proof fn lemma_uuid_text_roundtrip(v: u128)
    ensures
        uuid_from_text(uuid_text(v)) == Some(v),
{
    let h = hex_render(v as nat, 32);
    lemma_hex_render(v as nat, 32);
    lemma_pow16_32();
    let t = uuid_text(v);
    assert(t.len() == 36);
    let d = t.subrange(0, 8) + t.subrange(9, 13) + t.subrange(14, 18) + t.subrange(19, 23)
        + t.subrange(24, 36);
    assert(d =~= h);
    assert(hyphenated_digits(t) == Some(h));
}

/// Reads 32 hex digits.
fn hex32_value(d: &Vec<char>) -> (r: Option<u128>)
    requires
        d.len() == 32,
    ensures
        r == (if all_hex(d@) {
            Some(hex_value(d@) as u128)
        } else {
            None::<u128>
        }),
{
    let mut acc: u128 = 0;
    proof {
        lemma_pow16_32();
    }
    for i in 0..32
        invariant
            d.len() == 32,
            pow16(32) == 0x1_0000_0000_0000_0000_0000_0000_0000_0000,
            all_hex(d@.take(i as int)),
            acc as nat == hex_value(d@.take(i as int)),
            acc < pow16(i as nat),
    {
        let c = d[i];
        let ghost pre = d@.take(i as int);
        let ghost post = d@.take(i + 1);
        assert(post.drop_last() =~= pre);
        let v: u128 = if '0' <= c && c <= '9' {
            (c as u32 - 48) as u128
        } else if 'a' <= c && c <= 'f' {
            (c as u32 - 87) as u128
        } else if 'A' <= c && c <= 'F' {
            (c as u32 - 55) as u128
        } else {
            assert(!all_hex(d@)) by {
                assert(hex_digit_value(d@[i as int]) is None);
            }
            return None;
        };
        assert(hex_digit_value(c) == Some(v as nat));
        proof {
            lemma_pow16_mono((i + 1) as nat, 32);
        }
        assert(acc * 16 + v < pow16((i + 1) as nat)) by (nonlinear_arith)
            requires
                acc < pow16(i as nat),
                v < 16,
                pow16((i + 1) as nat) == 16 * pow16(i as nat),
        ;
        acc = acc * 16 + v;
        assert forall|j: int| 0 <= j < post.len() implies #[trigger] hex_digit_value(post[j]) is Some by {
            if j < i {
                assert(post[j] == pre[j]);
            }
        }
    }
    assert(d@.take(32) =~= d@);
    Some(acc)
}

/// The hyphen-free digits of a hyphenated UUID text `s[from..from+36]`,
/// if it has hyphens where the form puts them.
fn hyphenated_candidate(s: &Vec<char>, from: usize) -> (r: Option<Vec<char>>)
    requires
        from + 36 <= s.len(),
    ensures
        ({
            let t = s@.subrange(from as int, from + 36);
            match r {
                Some(d) => t[8] == '-' && t[13] == '-' && t[18] == '-' && t[23] == '-' && d@
                    == t.subrange(0, 8) + t.subrange(9, 13) + t.subrange(14, 18) + t.subrange(
                    19,
                    23,
                ) + t.subrange(24, 36),
                None => !(t[8] == '-' && t[13] == '-' && t[18] == '-' && t[23] == '-'),
            }
        }),
{
    if s[from + 8] != '-' || s[from + 13] != '-' || s[from + 18] != '-' || s[from + 23] != '-' {
        return None;
    }
    let mut d: Vec<char> = Vec::new();
    let ghost t = s@.subrange(from as int, from + 36);
    for k in 0..36
        invariant
            from + 36 <= s.len(),
            t == s@.subrange(from as int, from + 36),
            d@ == (if k <= 8 {
                t.subrange(0, k as int)
            } else if k <= 13 {
                t.subrange(0, 8) + t.subrange(9, k as int)
            } else if k <= 18 {
                t.subrange(0, 8) + t.subrange(9, 13) + t.subrange(14, k as int)
            } else if k <= 23 {
                t.subrange(0, 8) + t.subrange(9, 13) + t.subrange(14, 18) + t.subrange(19, k as int)
            } else {
                t.subrange(0, 8) + t.subrange(9, 13) + t.subrange(14, 18) + t.subrange(19, 23)
                    + t.subrange(24, k as int)
            }),
    {
        let ghost old_d = d@;
        if k != 8 && k != 13 && k != 18 && k != 23 {
            d.push(s[from + k]);
        }
        proof {
            if k < 8 {
                assert(d@ =~= t.subrange(0, k + 1));
            } else if k == 8 {
                assert(d@ =~= t.subrange(0, 8) + t.subrange(9, 9));
            } else if k < 13 {
                assert(d@ =~= t.subrange(0, 8) + t.subrange(9, k + 1));
            } else if k == 13 {
                assert(d@ =~= t.subrange(0, 8) + t.subrange(9, 13) + t.subrange(14, 14));
            } else if k < 18 {
                assert(d@ =~= t.subrange(0, 8) + t.subrange(9, 13) + t.subrange(14, k + 1));
            } else if k == 18 {
                assert(d@ =~= t.subrange(0, 8) + t.subrange(9, 13) + t.subrange(14, 18)
                    + t.subrange(19, 19));
            } else if k < 23 {
                assert(d@ =~= t.subrange(0, 8) + t.subrange(9, 13) + t.subrange(14, 18)
                    + t.subrange(19, k + 1));
            } else if k == 23 {
                assert(d@ =~= t.subrange(0, 8) + t.subrange(9, 13) + t.subrange(14, 18)
                    + t.subrange(19, 23) + t.subrange(24, 24));
            } else {
                assert(d@ =~= t.subrange(0, 8) + t.subrange(9, 13) + t.subrange(14, 18)
                    + t.subrange(19, 23) + t.subrange(24, k + 1));
            }
        }
    }
    Some(d)
}

/// Reads a UUID text in any of the accepted forms.
pub fn parse_uuid(s: &Vec<char>) -> (r: Option<u128>)
    ensures
        r == uuid_from_text(s@),
{
    let n = s.len();
    if n == 32 {
        return hex32_value(s);
    }
    let from: usize;
    if n == 36 {
        from = 0;
    } else if n == 38 && s[0] == '{' && s[37] == '}' {
        from = 1;
    } else if n == 45 {
        let mut urn = true;
        let p = vec!['u', 'r', 'n', ':', 'u', 'u', 'i', 'd', ':'];
        assert(p@ =~= urn_prefix());
        for k in 0..9
            invariant
                n == s.len() == 45,
                p@ == urn_prefix(),
                urn == (forall|j: int| 0 <= j < k ==> s@[j] == p@[j]),
        {
            if s[k] != p[k] {
                urn = false;
            }
        }
        if !urn {
            assert(s@.subrange(0, 9) != urn_prefix()) by {
                let j = choose|j: int| 0 <= j < 9 && s@[j] != p@[j];
                assert(s@.subrange(0, 9)[j] != urn_prefix()[j]);
            }
            return None;
        }
        assert(s@.subrange(0, 9) =~= urn_prefix());
        from = 9;
    } else {
        return None;
    }
    match hyphenated_candidate(s, from) {
        Some(d) => {
            assert(s@.subrange(from as int, from + 36) =~= (if n == 36 {
                s@
            } else if n == 38 {
                s@.subrange(1, 37)
            } else {
                s@.subrange(9, 45)
            }));
            hex32_value(&d)
        },
        None => {
            assert(s@.subrange(from as int, from + 36) =~= (if n == 36 {
                s@
            } else if n == 38 {
                s@.subrange(1, 37)
            } else {
                s@.subrange(9, 45)
            }));
            None
        },
    }
}

/// The lower-case hex digit for `d < 16`.
fn hex_char_exec(d: u128) -> (c: char)
    requires
        d < 16,
    ensures
        c == hex_char(d as nat),
{
    if d < 10 {
        ((d as u32) + 48) as u8 as char
    } else {
        ((d as u32) + 87) as u8 as char
    }
}

/// The canonical text of a UUID.
pub fn uuid_to_text(v: u128) -> (r: Vec<char>)
    ensures
        r@ == uuid_text(v),
{
    let mut h: Vec<char> = Vec::new();
    let mut q: u128 = v;
    let mut k: usize = 0;
    while k < 32
        invariant
            k <= 32,
            hex_render(v as nat, 32) == hex_render(q as nat, (32 - k) as nat) + h@,
        decreases 32 - k,
    {
        let c = hex_char_exec(q % 16);
        let ghost h0 = h@;
        h.insert(0, c);
        assert(h@ =~= seq![c] + h0);
        assert(hex_render(q as nat, (32 - k) as nat) == hex_render(
            (q / 16) as nat,
            (32 - k - 1) as nat,
        ).push(c));
        assert(hex_render((q / 16) as nat, (32 - k - 1) as nat).push(c) + h0 =~= hex_render(
            (q / 16) as nat,
            (32 - k - 1) as nat,
        ) + h@);
        q = q / 16;
        k = k + 1;
    }
    assert(hex_render(q as nat, 0) =~= Seq::<char>::empty());
    assert(h@ =~= hex_render(v as nat, 32));
    proof {
        lemma_hex_render(v as nat, 32);
    }
    let mut r: Vec<char> = Vec::new();
    for i in 0..32
        invariant
            h@ == hex_render(v as nat, 32),
            h.len() == 32,
            r@ == (if i <= 8 {
                h@.subrange(0, i as int)
            } else if i <= 12 {
                h@.subrange(0, 8) + seq!['-'] + h@.subrange(8, i as int)
            } else if i <= 16 {
                h@.subrange(0, 8) + seq!['-'] + h@.subrange(8, 12) + seq!['-'] + h@.subrange(
                    12,
                    i as int,
                )
            } else if i <= 20 {
                h@.subrange(0, 8) + seq!['-'] + h@.subrange(8, 12) + seq!['-'] + h@.subrange(12, 16)
                    + seq!['-'] + h@.subrange(16, i as int)
            } else {
                h@.subrange(0, 8) + seq!['-'] + h@.subrange(8, 12) + seq!['-'] + h@.subrange(12, 16)
                    + seq!['-'] + h@.subrange(16, 20) + seq!['-'] + h@.subrange(20, i as int)
            }),
    {
        if i == 8 || i == 12 || i == 16 || i == 20 {
            r.push('-');
        }
        r.push(h[i]);
        proof {
            let hh = h@;
            if i < 8 {
                assert(r@ =~= hh.subrange(0, i + 1));
            } else if i == 8 {
                assert(r@ =~= hh.subrange(0, 8) + seq!['-'] + hh.subrange(8, 9));
            } else if i < 12 {
                assert(r@ =~= hh.subrange(0, 8) + seq!['-'] + hh.subrange(8, i + 1));
            } else if i == 12 {
                assert(r@ =~= hh.subrange(0, 8) + seq!['-'] + hh.subrange(8, 12) + seq!['-']
                    + hh.subrange(12, 13));
            } else if i < 16 {
                assert(r@ =~= hh.subrange(0, 8) + seq!['-'] + hh.subrange(8, 12) + seq!['-']
                    + hh.subrange(12, i + 1));
            } else if i == 16 {
                assert(r@ =~= hh.subrange(0, 8) + seq!['-'] + hh.subrange(8, 12) + seq!['-']
                    + hh.subrange(12, 16) + seq!['-'] + hh.subrange(16, 17));
            } else if i < 20 {
                assert(r@ =~= hh.subrange(0, 8) + seq!['-'] + hh.subrange(8, 12) + seq!['-']
                    + hh.subrange(12, 16) + seq!['-'] + hh.subrange(16, i + 1));
            } else if i == 20 {
                assert(r@ =~= hh.subrange(0, 8) + seq!['-'] + hh.subrange(8, 12) + seq!['-']
                    + hh.subrange(12, 16) + seq!['-'] + hh.subrange(16, 20) + seq!['-']
                    + hh.subrange(20, 21));
            } else {
                assert(r@ =~= hh.subrange(0, 8) + seq!['-'] + hh.subrange(8, 12) + seq!['-']
                    + hh.subrange(12, 16) + seq!['-'] + hh.subrange(16, 20) + seq!['-']
                    + hh.subrange(20, i + 1));
            }
        }
    }
    r
}

// ---------------------------------------------------------------------
// Identifiers
// ---------------------------------------------------------------------

/// Identifier of a workflow.
#[derive(Clone, Copy, Debug, PartialEq, Eq, Hash, Structural)]
pub struct WorkflowId {
    pub uuid: u128,
}

/// Identifier of a task within a workflow.
#[derive(Clone, Copy, Debug, PartialEq, Eq, Hash, Structural)]
pub struct TaskId {
    pub uuid: u128,
}

/// The prefix of a workflow identifier's display text.
pub open spec fn workflow_prefix() -> Seq<char> {
    seq!['w', 'o', 'r', 'k', 'f', 'l', 'o', 'w', ':']
}

/// The prefix of a task identifier's display text.
pub open spec fn task_prefix() -> Seq<char> {
    seq!['t', 'a', 's', 'k', ':']
}

impl WorkflowId {
    /// The identifier with the given UUID.
    pub fn from_u128(uuid: u128) -> (id: WorkflowId)
        ensures
            id.uuid == uuid,
    {
        WorkflowId { uuid }
    }

    /// The canonical text of the UUID alone.
    pub fn uuid_text(&self) -> (s: String)
        ensures
            s@ == uuid_text(self.uuid),
    {
        string_of(&uuid_to_text(self.uuid))
    }

    /// The display text: `workflow:` followed by the UUID text.
    pub open spec fn spec_display(self) -> Seq<char> {
        workflow_prefix() + uuid_text(self.uuid)
    }

    /// The display text: `workflow:` followed by the UUID text.
    pub fn to_display(&self) -> (s: String)
        ensures
            s@ == self.spec_display(),
    {
        let p = vec!['w', 'o', 'r', 'k', 'f', 'l', 'o', 'w', ':'];
        assert(p@ =~= workflow_prefix());
        string_of(&concat_chars(&p, &uuid_to_text(self.uuid)))
    }
}

impl TaskId {
    /// The identifier with the given UUID.
    pub fn from_u128(uuid: u128) -> (id: TaskId)
        ensures
            id.uuid == uuid,
    {
        TaskId { uuid }
    }

    /// The canonical text of the UUID alone.
    pub fn uuid_text(&self) -> (s: String)
        ensures
            s@ == uuid_text(self.uuid),
    {
        string_of(&uuid_to_text(self.uuid))
    }

    /// The display text: `task:` followed by the UUID text.
    pub open spec fn spec_display(self) -> Seq<char> {
        task_prefix() + uuid_text(self.uuid)
    }

    /// The display text: `task:` followed by the UUID text.
    pub fn to_display(&self) -> (s: String)
        ensures
            s@ == self.spec_display(),
    {
        let p = vec!['t', 'a', 's', 'k', ':'];
        assert(p@ =~= task_prefix());
        string_of(&concat_chars(&p, &uuid_to_text(self.uuid)))
    }
}

/// The UUID that an identifier text denotes once an optional `prefix` is
/// removed.
pub open spec fn id_from_text(s: Seq<char>, prefix: Seq<char>) -> Option<u128> {
    uuid_from_text(strip_prefix_or_keep(s, prefix))
}

/// The error message of an unreadable identifier text.
pub open spec fn invalid_id_message(kind: Seq<char>, s: Seq<char>) -> Seq<char> {
    "Invalid "@ + kind + " ID: `"@ + s + "` is not a UUID"@
}

/// Reads an identifier text, with or without `prefix`.
fn parse_prefixed_id(s: &str, prefix: &Vec<char>, kind: &str) -> (r: Result<u128, String>)
    ensures
        match r {
            Ok(u) => id_from_text(s@, prefix@) == Some(u),
            Err(m) => id_from_text(s@, prefix@) is None && m@ == invalid_id_message(kind@, s@),
        },
{
    let v = chars_of(s);
    let stripped = strip_prefix_or_keep_exec(&v, prefix);
    match parse_uuid(&stripped) {
        Some(u) => Ok(u),
        None => {
            let m = String::from_str("Invalid ").concat(kind).concat(" ID: `").concat(s).concat(
                "` is not a UUID",
            );
            Err(m)
        },
    }
}

/// Reads a workflow identifier from its UUID text, with or without the
/// `workflow:` prefix.
pub fn parse_workflow_id(s: &str) -> (r: Result<WorkflowId, String>)
    ensures
        match r {
            Ok(id) => id_from_text(s@, workflow_prefix()) == Some(id.uuid),
            Err(m) => id_from_text(s@, workflow_prefix()) is None && m@ == invalid_id_message(
                "workflow"@,
                s@,
            ),
        },
{
    let p = vec!['w', 'o', 'r', 'k', 'f', 'l', 'o', 'w', ':'];
    assert(p@ =~= workflow_prefix());
    match parse_prefixed_id(s, &p, "workflow") {
        Ok(u) => Ok(WorkflowId { uuid: u }),
        Err(m) => Err(m),
    }
}

/// Reads a task identifier from its UUID text, with or without the
/// `task:` prefix.
pub fn parse_task_id(s: &str) -> (r: Result<TaskId, String>)
    ensures
        match r {
            Ok(id) => id_from_text(s@, task_prefix()) == Some(id.uuid),
            Err(m) => id_from_text(s@, task_prefix()) is None && m@ == invalid_id_message(
                "task"@,
                s@,
            ),
        },
{
    let p = vec!['t', 'a', 's', 'k', ':'];
    assert(p@ =~= task_prefix());
    match parse_prefixed_id(s, &p, "task") {
        Ok(u) => Ok(TaskId { uuid: u }),
        Err(m) => Err(m),
    }
}

/// An identifier's UUID text reads back as the same identifier, both bare
/// and behind its display prefix.
pub proof fn lemma_workflow_id_text_roundtrip(id: WorkflowId)
    ensures
        id_from_text(uuid_text(id.uuid), workflow_prefix()) == Some(id.uuid),
        id_from_text(id.spec_display(), workflow_prefix()) == Some(id.uuid),
{
    lemma_uuid_text_roundtrip(id.uuid);
    let t = uuid_text(id.uuid);
    lemma_hex_render(id.uuid as nat, 32);
    assert(t[0] != 'w') by {
        assert(t[0] == hex_render(id.uuid as nat, 32)[0]);
        assert(hex_digit_value(hex_render(id.uuid as nat, 32)[0]) is Some);
    }
    assert(!has_prefix(t, workflow_prefix())) by {
        if has_prefix(t, workflow_prefix()) {
            assert(t.subrange(0, 9)[0] == t[0]);
        }
    }
    let d = id.spec_display();
    assert(has_prefix(d, workflow_prefix())) by {
        assert(d.subrange(0, 9) =~= workflow_prefix());
    }
    assert(d.subrange(9, d.len() as int) =~= t);
}

/// A task identifier's UUID text reads back as the same identifier, both
/// bare and behind its display prefix.
pub proof fn lemma_task_id_text_roundtrip(id: TaskId)
    ensures
        id_from_text(uuid_text(id.uuid), task_prefix()) == Some(id.uuid),
        id_from_text(id.spec_display(), task_prefix()) == Some(id.uuid),
{
    lemma_uuid_text_roundtrip(id.uuid);
    let t = uuid_text(id.uuid);
    lemma_hex_render(id.uuid as nat, 32);
    assert(t[0] != 't') by {
        assert(t[0] == hex_render(id.uuid as nat, 32)[0]);
        assert(hex_digit_value(hex_render(id.uuid as nat, 32)[0]) is Some);
    }
    assert(!has_prefix(t, task_prefix())) by {
        if has_prefix(t, task_prefix()) {
            assert(t.subrange(0, 5)[0] == t[0]);
        }
    }
    let d = id.spec_display();
    assert(has_prefix(d, task_prefix())) by {
        assert(d.subrange(0, 5) =~= task_prefix());
    }
    assert(d.subrange(5, d.len() as int) =~= t);
}

} // verus!
