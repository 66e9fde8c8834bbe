//! The durable form of the registry.
//!
//! A registry is written as text: every number is a twenty-digit
//! zero-padded decimal field, every string is its character count
//! followed by its characters, an optional string is a presence field
//! (zero or one) followed by the string if present, and the whole file
//! is the record count followed by the records in registry order — so
//! insertion order survives a reload. `parse_registry` is the
//! specification of what the text means; [`lemma_registry_round_trip`]
//! proves that parsing inverts encoding, so a saved registry loads back
//! equal in all fields. Reading and writing the file itself is the
//! caller's: [`encode_registry`] and [`decode_registry`] work on the
//! text alone.

use vstd::prelude::*;
use vstd::arithmetic::div_mod::lemma_fundamental_div_mod;
use vstd::arithmetic::div_mod::lemma_multiply_divide_lt;

use crate::errors::FleetError;
use crate::numerals::char_val;
use crate::numerals::dec_fixed;
use crate::numerals::is_dec_digit;
use crate::numerals::lemma_pow10_pos;
use crate::numerals::lemma_pow10_values;
use crate::numerals::pow10;
use crate::numerals::push_dec_fixed;
use crate::registry::InstanceRecord;
use crate::registry::InstanceStatus;
use crate::registry::RecordModel;
use crate::registry::Registry;

verus! {

/// The width of every number field, in digits: enough for any `u64`.
pub const NUM_WIDTH: u64 = 20;

/// The largest value a number field can carry.
pub const NUM_MAX: u64 = 0xffff_ffff_ffff_ffff;

// ---------------------------------------------------------------------
// What the durable text of each piece is.
// ---------------------------------------------------------------------

/// A number field.
pub open spec fn enc_num(n: nat) -> Seq<char> {
    dec_fixed(n, NUM_WIDTH as nat)
}

/// A string field: character count, then the characters.
pub open spec fn enc_str(s: Seq<char>) -> Seq<char> {
    enc_num(s.len()) + s
}

/// An optional string field: presence, then the string if present.
pub open spec fn enc_opt_str(o: Option<Seq<char>>) -> Seq<char> {
    match o {
        None => enc_num(0),
        Some(s) => enc_num(1) + enc_str(s),
    }
}

/// The tag a status is stored as.
pub open spec fn status_tag(st: InstanceStatus) -> nat {
    match st {
        InstanceStatus::Added => 0,
        InstanceStatus::Installed => 1,
        InstanceStatus::Running => 2,
        InstanceStatus::Stopped => 3,
        InstanceStatus::Removed => 4,
    }
}

/// The status a tag denotes, if any.
pub open spec fn status_of_tag(t: nat) -> Option<InstanceStatus> {
    if t == 0 {
        Some(InstanceStatus::Added)
    } else if t == 1 {
        Some(InstanceStatus::Installed)
    } else if t == 2 {
        Some(InstanceStatus::Running)
    } else if t == 3 {
        Some(InstanceStatus::Stopped)
    } else if t == 4 {
        Some(InstanceStatus::Removed)
    } else {
        None
    }
}

/// One record: every field, in a fixed order.
pub open spec fn enc_record(m: RecordModel) -> Seq<char> {
    enc_str(m.service_name) + enc_opt_str(m.peer_id) + enc_num(m.rpc_port as nat) + enc_str(
        m.version,
    ) + enc_str(m.user) + enc_str(m.binary_path) + enc_str(m.data_dir_path) + enc_str(
        m.log_dir_path,
    ) + enc_num(status_tag(m.status)) + enc_str(m.service_backend_handle)
}

/// The records, in registry order.
pub open spec fn enc_records(rs: Seq<RecordModel>) -> Seq<char>
    decreases rs.len(),
{
    if rs.len() == 0 {
        Seq::empty()
    } else {
        enc_record(rs[0]) + enc_records(rs.drop_first())
    }
}

/// The whole durable text: record count, then the records.
pub open spec fn enc_registry(rs: Seq<RecordModel>) -> Seq<char> {
    enc_num(rs.len()) + enc_records(rs)
}

// ---------------------------------------------------------------------
// What a durable text means: the parsing specification.
// ---------------------------------------------------------------------

/// Reads `w` digits, extending the value `acc`.
pub open spec fn parse_fixed(s: Seq<char>, w: nat, acc: nat) -> Option<(nat, Seq<char>)>
    decreases w,
{
    if w == 0 {
        Some((acc, s))
    } else if s.len() > 0 && is_dec_digit(s[0]) {
        parse_fixed(s.drop_first(), (w - 1) as nat, acc * 10 + char_val(s[0]))
    } else {
        None
    }
}

/// Reads a number field.
pub open spec fn parse_num(s: Seq<char>) -> Option<(nat, Seq<char>)> {
    match parse_fixed(s, NUM_WIDTH as nat, 0) {
        Some((n, r)) => if n <= NUM_MAX as nat {
            Some((n, r))
        } else {
            None
        },
        None => None,
    }
}

/// Reads a string field.
pub open spec fn parse_str(s: Seq<char>) -> Option<(Seq<char>, Seq<char>)> {
    match parse_num(s) {
        Some((n, r)) => if r.len() >= n {
            Some((r.take(n as int), r.skip(n as int)))
        } else {
            None
        },
        None => None,
    }
}

/// Reads an optional string field.
pub open spec fn parse_opt_str(s: Seq<char>) -> Option<(Option<Seq<char>>, Seq<char>)> {
    match parse_num(s) {
        Some((t, r)) => if t == 0 {
            Some((None, r))
        } else if t == 1 {
            match parse_str(r) {
                Some((v, r2)) => Some((Some(v), r2)),
                None => None,
            }
        } else {
            None
        },
        None => None,
    }
}

/// Reads a status field.
pub open spec fn parse_status(s: Seq<char>) -> Option<(InstanceStatus, Seq<char>)> {
    match parse_num(s) {
        Some((t, r)) => match status_of_tag(t) {
            Some(st) => Some((st, r)),
            None => None,
        },
        None => None,
    }
}

/// Reads one record.
pub open spec fn parse_record(s: Seq<char>) -> Option<(RecordModel, Seq<char>)> {
    match parse_str(s) {
        Some((service_name, r1)) => match parse_opt_str(r1) {
            Some((peer_id, r2)) => match parse_num(r2) {
                Some((port, r3)) => if port <= u16::MAX as nat {
                    match parse_str(r3) {
                        Some((version, r4)) => match parse_str(r4) {
                            Some((user, r5)) => match parse_str(r5) {
                                Some((binary_path, r6)) => match parse_str(r6) {
                                    Some((data_dir_path, r7)) => match parse_str(r7) {
                                        Some((log_dir_path, r8)) => match parse_status(r8) {
                                            Some((status, r9)) => match parse_str(r9) {
                                                Some((service_backend_handle, r10)) => Some(
                                                    (
                                                        RecordModel {
                                                            service_name,
                                                            peer_id,
                                                            rpc_port: port as u16,
                                                            version,
                                                            user,
                                                            binary_path,
                                                            data_dir_path,
                                                            log_dir_path,
                                                            status,
                                                            service_backend_handle,
                                                        },
                                                        r10,
                                                    ),
                                                ),
                                                None => None,
                                            },
                                            None => None,
                                        },
                                        None => None,
                                    },
                                    None => None,
                                },
                                None => None,
                            },
                            None => None,
                        },
                        None => None,
                    }
                } else {
                    None
                },
                None => None,
            },
            None => None,
        },
        None => None,
    }
}

/// Reads `k` records.
pub open spec fn parse_records(s: Seq<char>, k: nat) -> Option<(Seq<RecordModel>, Seq<char>)>
    decreases k,
{
    if k == 0 {
        Some((Seq::empty(), s))
    } else {
        match parse_record(s) {
            Some((m, r)) => match parse_records(r, (k - 1) as nat) {
                Some((ms, r2)) => Some((seq![m] + ms, r2)),
                None => None,
            },
            None => None,
        }
    }
}

/// What a whole durable text denotes: the record count, the records,
/// and nothing after them.
pub open spec fn parse_registry(s: Seq<char>) -> Option<Seq<RecordModel>> {
    match parse_num(s) {
        Some((k, r)) => match parse_records(r, k) {
            Some((ms, r2)) => if r2.len() == 0 {
                Some(ms)
            } else {
                None
            },
            None => None,
        },
        None => None,
    }
}

/// Whether every string of the record fits a number field. Anything an
/// executable registry holds does.
pub open spec fn record_bounded(m: RecordModel) -> bool {
    &&& m.service_name.len() <= NUM_MAX as nat
    &&& (m.peer_id matches Some(p) ==> p.len() <= NUM_MAX as nat)
    &&& m.version.len() <= NUM_MAX as nat
    &&& m.user.len() <= NUM_MAX as nat
    &&& m.binary_path.len() <= NUM_MAX as nat
    &&& m.data_dir_path.len() <= NUM_MAX as nat
    &&& m.log_dir_path.len() <= NUM_MAX as nat
    &&& m.service_backend_handle.len() <= NUM_MAX as nat
}

/// Whether the registry and all its records fit the durable form.
pub open spec fn registry_bounded(rs: Seq<RecordModel>) -> bool {
    rs.len() <= NUM_MAX as nat && (forall|i: int| 0 <= i < rs.len() ==> record_bounded(#[trigger] rs[i]))
}

// ---------------------------------------------------------------------
// Parsing inverts encoding.
// ---------------------------------------------------------------------

proof fn lemma_parse_fixed_round(n: nat, w: nat, acc: nat, rest: Seq<char>)
    requires
        n < pow10(w),
    ensures
        parse_fixed(dec_fixed(n, w) + rest, w, acc) == Some(((acc * pow10(w) + n) as nat, rest)),
    decreases w,
{
    if w == 0 {
        assert(dec_fixed(n, 0) + rest =~= rest);
        assert(acc * pow10(0) + n == acc);
    } else {
        let p = pow10((w - 1) as nat);
        lemma_pow10_pos((w - 1) as nat);
        let d = n / p;
        let m = n % p;
        lemma_multiply_divide_lt(n as int, p as int, 10);
        let s = dec_fixed(n, w) + rest;
        assert(dec_fixed(n, w) == seq![crate::numerals::dec_digit(d)] + dec_fixed(
            m,
            (w - 1) as nat,
        ));
        assert(s[0] == crate::numerals::dec_digit(d));
        assert(is_dec_digit(s[0]));
        assert(char_val(s[0]) == d);
        assert(s.drop_first() =~= dec_fixed(m, (w - 1) as nat) + rest);
        lemma_parse_fixed_round(m, (w - 1) as nat, acc * 10 + d, rest);
        lemma_fundamental_div_mod(n as int, p as int);
        assert(n == p * d + m);
        assert((acc * 10 + d) * p + m == acc * (10 * p) + n) by (nonlinear_arith)
            requires
                n == p * d + m,
        ;
        assert(pow10(w) == 10 * p);
    }
}

proof fn lemma_parse_num_round(n: nat, rest: Seq<char>)
    requires
        n <= NUM_MAX as nat,
    ensures
        parse_num(enc_num(n) + rest) == Some((n, rest)),
{
    lemma_pow10_values();
    lemma_parse_fixed_round(n, NUM_WIDTH as nat, 0, rest);
}

proof fn lemma_parse_str_round(t: Seq<char>, rest: Seq<char>)
    requires
        t.len() <= NUM_MAX as nat,
    ensures
        parse_str(enc_str(t) + rest) == Some((t, rest)),
{
    assert(enc_str(t) + rest =~= enc_num(t.len()) + (t + rest));
    lemma_parse_num_round(t.len(), t + rest);
    assert((t + rest).take(t.len() as int) =~= t);
    assert((t + rest).skip(t.len() as int) =~= rest);
}

proof fn lemma_parse_opt_str_round(o: Option<Seq<char>>, rest: Seq<char>)
    requires
        o matches Some(t) ==> t.len() <= NUM_MAX as nat,
    ensures
        parse_opt_str(enc_opt_str(o) + rest) == Some((o, rest)),
{
    match o {
        None => {
            assert(enc_opt_str(o) + rest =~= enc_num(0) + rest);
            lemma_parse_num_round(0, rest);
        },
        Some(t) => {
            assert(enc_opt_str(o) + rest =~= enc_num(1) + (enc_str(t) + rest));
            lemma_parse_num_round(1, enc_str(t) + rest);
            lemma_parse_str_round(t, rest);
        },
    }
}

proof fn lemma_parse_status_round(st: InstanceStatus, rest: Seq<char>)
    ensures
        parse_status(enc_num(status_tag(st)) + rest) == Some((st, rest)),
{
    lemma_parse_num_round(status_tag(st), rest);
    assert(status_of_tag(status_tag(st)) == Some(st));
}

#[verifier::rlimit(60)]
proof fn lemma_parse_record_round(m: RecordModel, rest: Seq<char>)
    requires
        record_bounded(m),
    ensures
        parse_record(enc_record(m) + rest) == Some((m, rest)),
{
    let r9 = enc_str(m.service_backend_handle) + rest;
    let r8 = enc_num(status_tag(m.status)) + r9;
    let r7 = enc_str(m.log_dir_path) + r8;
    let r6 = enc_str(m.data_dir_path) + r7;
    let r5 = enc_str(m.binary_path) + r6;
    let r4 = enc_str(m.user) + r5;
    let r3 = enc_str(m.version) + r4;
    let r2 = enc_num(m.rpc_port as nat) + r3;
    let r1 = enc_opt_str(m.peer_id) + r2;
    assert(enc_record(m) + rest =~= enc_str(m.service_name) + r1);
    lemma_parse_str_round(m.service_name, r1);
    lemma_parse_opt_str_round(m.peer_id, r2);
    lemma_parse_num_round(m.rpc_port as nat, r3);
    lemma_parse_str_round(m.version, r4);
    lemma_parse_str_round(m.user, r5);
    lemma_parse_str_round(m.binary_path, r6);
    lemma_parse_str_round(m.data_dir_path, r7);
    lemma_parse_str_round(m.log_dir_path, r8);
    lemma_parse_status_round(m.status, r9);
    lemma_parse_str_round(m.service_backend_handle, rest);
}

proof fn lemma_parse_records_round(rs: Seq<RecordModel>, rest: Seq<char>)
    requires
        forall|i: int| 0 <= i < rs.len() ==> record_bounded(#[trigger] rs[i]),
    ensures
        parse_records(enc_records(rs) + rest, rs.len()) == Some((rs, rest)),
    decreases rs.len(),
{
    if rs.len() == 0 {
        assert(enc_records(rs) + rest =~= rest);
        assert(rs =~= Seq::<RecordModel>::empty());
    } else {
        let tail = rs.drop_first();
        assert(enc_records(rs) + rest =~= enc_record(rs[0]) + (enc_records(tail) + rest));
        lemma_parse_record_round(rs[0], enc_records(tail) + rest);
        assert(forall|i: int| 0 <= i < tail.len() ==> record_bounded(#[trigger] tail[i]));
        lemma_parse_records_round(tail, rest);
        assert(seq![rs[0]] + tail =~= rs);
    }
}

/// Round trip: the durable text of a registry parses back to exactly
/// the records it was written from — every field of every record, in
/// the same order.
pub proof fn lemma_registry_round_trip(rs: Seq<RecordModel>)
    requires
        registry_bounded(rs),
    ensures
        parse_registry(enc_registry(rs)) == Some(rs),
{
    assert(enc_registry(rs) =~= enc_num(rs.len()) + enc_records(rs));
    lemma_parse_num_round(rs.len(), enc_records(rs));
    lemma_parse_records_round(rs, Seq::empty());
    assert(enc_records(rs) + Seq::<char>::empty() =~= enc_records(rs));
}

proof fn lemma_enc_records_snoc(rs: Seq<RecordModel>, m: RecordModel)
    ensures
        enc_records(rs.push(m)) == enc_records(rs) + enc_record(m),
    decreases rs.len(),
{
    assert(rs.push(m).len() > 0);
    assert(enc_records(rs.push(m)) == enc_record(rs.push(m)[0]) + enc_records(
        rs.push(m).drop_first(),
    ));
    if rs.len() == 0 {
        assert(rs.push(m)[0] == m);
        assert(rs.push(m).drop_first() =~= Seq::<RecordModel>::empty());
        assert(enc_records(Seq::<RecordModel>::empty()) == Seq::<char>::empty());
        assert(enc_records(rs.push(m)) =~= enc_records(rs) + enc_record(m));
    } else {
        assert(rs.push(m)[0] == rs[0]);
        assert(rs.push(m).drop_first() =~= rs.drop_first().push(m));
        lemma_enc_records_snoc(rs.drop_first(), m);
        assert(enc_records(rs) == enc_record(rs[0]) + enc_records(rs.drop_first()));
        assert(enc_records(rs.push(m)) =~= enc_records(rs) + enc_record(m));
    }
}

// ---------------------------------------------------------------------
// Writing the durable text.
// ---------------------------------------------------------------------

/// Appends a number field.
fn push_num(n: u64, out: &mut String)
    ensures
        final(out)@ == old(out)@ + enc_num(n as nat),
{
    proof {
        crate::numerals::lemma_u64_fits_20_digits(n);
    }
    push_dec_fixed(n, NUM_WIDTH, out);
}

/// Appends a string field.
fn push_str_field(s: &String, out: &mut String)
    ensures
        final(out)@ == old(out)@ + enc_str(s@),
{
    let len = s.as_str().unicode_len();
    push_num(len as u64, out);
    out.append(s.as_str());
    proof {
        assert(old(out)@ + enc_str(s@) =~= old(out)@ + enc_num(s@.len()) + s@);
    }
}

/// Appends an optional string field.
fn push_opt_str_field(o: &Option<String>, out: &mut String)
    ensures
        final(out)@ == old(out)@ + enc_opt_str(
            match o {
                Some(s) => Some(s@),
                None => None,
            },
        ),
{
    match o {
        None => {
            push_num(0, out);
        },
        Some(s) => {
            push_num(1, out);
            push_str_field(s, out);
            proof {
                assert(old(out)@ + enc_opt_str(Some(s@)) =~= old(out)@ + enc_num(1) + enc_str(s@));
            }
        },
    }
}

/// The tag a status is stored as, executable.
fn status_tag_of(st: &InstanceStatus) -> (t: u64)
    ensures
        t as nat == status_tag(*st),
{
    match st {
        InstanceStatus::Added => 0,
        InstanceStatus::Installed => 1,
        InstanceStatus::Running => 2,
        InstanceStatus::Stopped => 3,
        InstanceStatus::Removed => 4,
    }
}

/// Appends one record.
#[verifier::rlimit(60)]
fn push_record(rec: &InstanceRecord, out: &mut String)
    ensures
        final(out)@ == old(out)@ + enc_record(rec.model()),
{
    push_str_field(&rec.service_name, out);
    push_opt_str_field(&rec.peer_id, out);
    push_num(rec.rpc_port as u64, out);
    push_str_field(&rec.version, out);
    push_str_field(&rec.user, out);
    push_str_field(&rec.binary_path, out);
    push_str_field(&rec.data_dir_path, out);
    push_str_field(&rec.log_dir_path, out);
    let tag = status_tag_of(&rec.status);
    push_num(tag, out);
    push_str_field(&rec.service_backend_handle, out);
    proof {
        let m = rec.model();
        assert(old(out)@ + enc_record(m) =~= old(out)@ + enc_str(m.service_name) + enc_opt_str(
            m.peer_id,
        ) + enc_num(m.rpc_port as nat) + enc_str(m.version) + enc_str(m.user) + enc_str(
            m.binary_path,
        ) + enc_str(m.data_dir_path) + enc_str(m.log_dir_path) + enc_num(status_tag(m.status))
            + enc_str(m.service_backend_handle));
    }
}

/// Writes the durable text of a registry: what `save` puts on disk.
pub fn encode_registry(reg: &Registry) -> (r: String)
    ensures
        r@ == enc_registry(reg@),
{
    let mut out = String::new();
    let n = reg.records.len();
    push_num(n as u64, &mut out);
    let mut i: usize = 0;
    while i < n
        invariant
            i <= n,
            n == reg@.len(),
            reg@.len() == reg.records@.len(),
            out@ == enc_num(reg@.len()) + enc_records(reg@.take(i as int)),
        decreases n - i,
    {
        let ghost before = reg@.take(i as int);
        push_record(&reg.records[i], &mut out);
        proof {
            assert(reg@.take(i + 1 as int) =~= before.push(reg@[i as int]));
            lemma_enc_records_snoc(before, reg@[i as int]);
        }
        i = i + 1;
    }
    proof {
        assert(reg@.take(n as int) =~= reg@);
    }
    out
}

// ---------------------------------------------------------------------
// Reading a durable text.
// ---------------------------------------------------------------------

/// The numeric value of a digit character, executable.
fn digit_val(c: char) -> (r: Option<u64>)
    ensures
        match r {
            Some(d) => is_dec_digit(c) && d as nat == char_val(c) && d < 10,
            None => !is_dec_digit(c),
        },
{
    match c {
        '0' => Some(0),
        '1' => Some(1),
        '2' => Some(2),
        '3' => Some(3),
        '4' => Some(4),
        '5' => Some(5),
        '6' => Some(6),
        '7' => Some(7),
        '8' => Some(8),
        '9' => Some(9),
        _ => None,
    }
}

/// When fewer characters remain than a field needs, the field is absent.
proof fn lemma_parse_fixed_short(s: Seq<char>, w: nat, acc: nat)
    requires
        s.len() < w,
    ensures
        parse_fixed(s, w, acc) is None,
    decreases w,
{
    if w > 0 && s.len() > 0 && is_dec_digit(s[0]) {
        lemma_parse_fixed_short(s.drop_first(), (w - 1) as nat, acc * 10 + char_val(s[0]));
    }
}

/// Reads the number field at `i`.
fn read_num(s: &str, i: usize) -> (r: Result<(u64, usize), FleetError>)
    requires
        i <= s@.len(),
    ensures
        match r {
            Ok((n, j)) => i <= j <= s@.len() && parse_num(s@.skip(i as int)) == Some(
                (n as nat, s@.skip(j as int)),
            ),
            Err(e) => parse_num(s@.skip(i as int)) is None && e == FleetError::CorruptRegistry,
        },
{
    let total = s.unicode_len();
    if total - i < 20 {
        proof {
            lemma_parse_fixed_short(s@.skip(i as int), NUM_WIDTH as nat, 0);
        }
        return Err(FleetError::CorruptRegistry);
    }
    let mut acc: u128 = 0;
    let mut j: usize = 0;
    while j < 20
        invariant
            j <= 20,
            i + 20 <= s@.len(),
            s@.len() <= usize::MAX,
            (acc as nat) < pow10(j as nat),
            parse_fixed(s@.skip(i as int), NUM_WIDTH as nat, 0) == parse_fixed(
                s@.skip((i + j) as int),
                (NUM_WIDTH - j) as nat,
                acc as nat,
            ),
        decreases 20 - j,
    {
        let c = s.get_char(i + j);
        proof {
            lemma_pow10_pos(j as nat);
            lemma_pow10_values();
            crate::numerals::lemma_pow10_mono((j + 1) as nat, 20);
        }
        match digit_val(c) {
            None => {
                return Err(FleetError::CorruptRegistry);
            },
            Some(d) => {
                proof {
                    assert(s@.skip((i + j) as int)[0] == c);
                    assert(s@.skip((i + j) as int).drop_first() =~= s@.skip((i + j + 1) as int));
                    assert(pow10((j + 1) as nat) == 10 * pow10(j as nat));
                }
                acc = acc * 10 + (d as u128);
                j = j + 1;
            },
        }
    }
    if acc > (NUM_MAX as u128) {
        return Err(FleetError::CorruptRegistry);
    }
    proof {
        assert(parse_fixed(s@.skip((i + 20) as int), 0, acc as nat) == Some(
            (acc as nat, s@.skip((i + 20) as int)),
        ));
    }
    Ok((acc as u64, i + 20))
}

/// Reads the string field at `i`.
fn read_str(s: &str, i: usize) -> (r: Result<(String, usize), FleetError>)
    requires
        i <= s@.len(),
    ensures
        match r {
            Ok((t, j)) => i <= j <= s@.len() && parse_str(s@.skip(i as int)) == Some(
                (t@, s@.skip(j as int)),
            ),
            Err(e) => parse_str(s@.skip(i as int)) is None && e == FleetError::CorruptRegistry,
        },
{
    let (n, j) = match read_num(s, i) {
        Ok(v) => v,
        Err(e) => {
            return Err(e);
        },
    };
    let total = s.unicode_len();
    let remaining = total - j;
    if n > remaining as u64 {
        return Err(FleetError::CorruptRegistry);
    }
    let end = j + (n as usize);
    let sub = s.substring_char(j, end);
    let t = String::from_str(sub);
    proof {
        assert(s@.skip(j as int).take(n as int) =~= s@.subrange(j as int, end as int));
        assert(s@.skip(j as int).skip(n as int) =~= s@.skip(end as int));
    }
    Ok((t, end))
}

/// Reads the optional string field at `i`.
fn read_opt_str(s: &str, i: usize) -> (r: Result<(Option<String>, usize), FleetError>)
    requires
        i <= s@.len(),
    ensures
        match r {
            Ok((o, j)) => i <= j <= s@.len() && parse_opt_str(s@.skip(i as int)) == Some(
                (
                    match o {
                        Some(t) => Some(t@),
                        None => None,
                    },
                    s@.skip(j as int),
                ),
            ),
            Err(e) => parse_opt_str(s@.skip(i as int)) is None && e == FleetError::CorruptRegistry,
        },
{
    let (tag, j) = match read_num(s, i) {
        Ok(v) => v,
        Err(e) => {
            return Err(e);
        },
    };
    if tag == 0 {
        Ok((None, j))
    } else if tag == 1 {
        match read_str(s, j) {
            Ok((t, j2)) => Ok((Some(t), j2)),
            Err(e) => Err(e),
        }
    } else {
        Err(FleetError::CorruptRegistry)
    }
}

/// Reads the status field at `i`.
fn read_status(s: &str, i: usize) -> (r: Result<(InstanceStatus, usize), FleetError>)
    requires
        i <= s@.len(),
    ensures
        match r {
            Ok((st, j)) => i <= j <= s@.len() && parse_status(s@.skip(i as int)) == Some(
                (st, s@.skip(j as int)),
            ),
            Err(e) => parse_status(s@.skip(i as int)) is None && e == FleetError::CorruptRegistry,
        },
{
    let (tag, j) = match read_num(s, i) {
        Ok(v) => v,
        Err(e) => {
            return Err(e);
        },
    };
    if tag == 0 {
        Ok((InstanceStatus::Added, j))
    } else if tag == 1 {
        Ok((InstanceStatus::Installed, j))
    } else if tag == 2 {
        Ok((InstanceStatus::Running, j))
    } else if tag == 3 {
        Ok((InstanceStatus::Stopped, j))
    } else if tag == 4 {
        Ok((InstanceStatus::Removed, j))
    } else {
        Err(FleetError::CorruptRegistry)
    }
}

/// Reads the record at `i`.
#[verifier::rlimit(100)]
fn read_record(s: &str, i: usize) -> (r: Result<(InstanceRecord, usize), FleetError>)
    requires
        i <= s@.len(),
    ensures
        match r {
            Ok((rec, j)) => i <= j <= s@.len() && parse_record(s@.skip(i as int)) == Some(
                (rec.model(), s@.skip(j as int)),
            ),
            Err(e) => parse_record(s@.skip(i as int)) is None && e == FleetError::CorruptRegistry,
        },
{
    let (service_name, i1) = match read_str(s, i) {
        Ok(v) => v,
        Err(e) => {
            return Err(e);
        },
    };
    let (peer_id, i2) = match read_opt_str(s, i1) {
        Ok(v) => v,
        Err(e) => {
            return Err(e);
        },
    };
    let (port, i3) = match read_num(s, i2) {
        Ok(v) => v,
        Err(e) => {
            return Err(e);
        },
    };
    if port > u16::MAX as u64 {
        return Err(FleetError::CorruptRegistry);
    }
    let (version, i4) = match read_str(s, i3) {
        Ok(v) => v,
        Err(e) => {
            return Err(e);
        },
    };
    let (user, i5) = match read_str(s, i4) {
        Ok(v) => v,
        Err(e) => {
            return Err(e);
        },
    };
    let (binary_path, i6) = match read_str(s, i5) {
        Ok(v) => v,
        Err(e) => {
            return Err(e);
        },
    };
    let (data_dir_path, i7) = match read_str(s, i6) {
        Ok(v) => v,
        Err(e) => {
            return Err(e);
        },
    };
    let (log_dir_path, i8) = match read_str(s, i7) {
        Ok(v) => v,
        Err(e) => {
            return Err(e);
        },
    };
    let (status, i9) = match read_status(s, i8) {
        Ok(v) => v,
        Err(e) => {
            return Err(e);
        },
    };
    let (service_backend_handle, i10) = match read_str(s, i9) {
        Ok(v) => v,
        Err(e) => {
            return Err(e);
        },
    };
    let rec = InstanceRecord {
        service_name,
        peer_id,
        rpc_port: port as u16,
        version,
        user,
        binary_path,
        data_dir_path,
        log_dir_path,
        status,
        service_backend_handle,
    };
    Ok((rec, i10))
}

/// The models of a sequence of records.
pub open spec fn records_model(vs: Seq<InstanceRecord>) -> Seq<RecordModel> {
    vs.map_values(|r: InstanceRecord| r.model())
}

/// Reads `k` records at `i`.
fn read_records(s: &str, i: usize, k: u64) -> (r: Result<(Vec<InstanceRecord>, usize), FleetError>)
    requires
        i <= s@.len(),
    ensures
        match r {
            Ok((vs, j)) => i <= j <= s@.len() && parse_records(s@.skip(i as int), k as nat) == Some(
                (records_model(vs@), s@.skip(j as int)),
            ),
            Err(e) => parse_records(s@.skip(i as int), k as nat) is None && e
                == FleetError::CorruptRegistry,
        },
    decreases k,
{
    if k == 0 {
        let vs: Vec<InstanceRecord> = Vec::new();
        proof {
            assert(records_model(vs@) =~= Seq::<RecordModel>::empty());
        }
        return Ok((vs, i));
    }
    let (rec, j1) = match read_record(s, i) {
        Ok(v) => v,
        Err(e) => {
            return Err(e);
        },
    };
    let (mut vs, j2) = match read_records(s, j1, k - 1) {
        Ok(v) => v,
        Err(e) => {
            return Err(e);
        },
    };
    let ghost tail_models = records_model(vs@);
    vs.insert(0, rec);
    proof {
        assert(records_model(vs@) =~= seq![rec.model()] + tail_models);
    }
    Ok((vs, j2))
}

/// Reads a whole durable text: what `load` does with the file's
/// contents. A text that does not parse, that has anything after the
/// records, or whose records break the uniqueness invariant is corrupt.
pub fn decode_registry(s: &str) -> (r: Result<Registry, FleetError>)
    ensures
        match r {
            Ok(reg) => parse_registry(s@) == Some(reg@) && reg.wf(),
            Err(e) => e == FleetError::CorruptRegistry && (match parse_registry(s@) {
                Some(ms) => !crate::registry::registry_wf(ms),
                None => true,
            }),
        },
{
    proof {
        assert(s@.skip(0) =~= s@);
    }
    let (count, i1) = match read_num(s, 0) {
        Ok(v) => v,
        Err(e) => {
            return Err(e);
        },
    };
    let (records, i2) = match read_records(s, i1, count) {
        Ok(v) => v,
        Err(e) => {
            return Err(e);
        },
    };
    let total = s.unicode_len();
    if i2 != total {
        proof {
            assert(s@.skip(i2 as int).len() != 0);
        }
        return Err(FleetError::CorruptRegistry);
    }
    let reg = Registry { records };
    proof {
        assert(s@.skip(i2 as int).len() == 0);
        assert(reg@ =~= records_model(reg.records@));
    }
    if check_wf(&reg) {
        Ok(reg)
    } else {
        Err(FleetError::CorruptRegistry)
    }
}

/// Whether the records satisfy the uniqueness invariant.
fn check_wf(reg: &Registry) -> (r: bool)
    ensures
        r == crate::registry::registry_wf(reg@),
{
    let n = reg.records.len();
    let mut i: usize = 1;
    while i < n
        invariant
            1 <= i || n == 0,
            i <= n || (n == 0 && i == 1),
            n == reg@.len(),
            reg@.len() == reg.records@.len(),
            forall|a: int, b: int|
                0 <= a < b < i ==> reg@[a].service_name != reg@[b].service_name && reg@[a].rpc_port
                    != reg@[b].rpc_port,
        decreases n - i,
    {
        let mut j: usize = 0;
        while j < i
            invariant
                j <= i < n,
                n == reg@.len(),
                reg@.len() == reg.records@.len(),
                forall|b: int|
                    0 <= b < j ==> reg@[b].service_name != reg@[i as int].service_name
                        && reg@[b].rpc_port != reg@[i as int].rpc_port,
            decreases i - j,
        {
            if reg.records[j].service_name == reg.records[i].service_name || reg.records[j].rpc_port
                == reg.records[i].rpc_port {
                proof {
                    assert(reg@[j as int].service_name == reg@[i as int].service_name
                        || reg@[j as int].rpc_port == reg@[i as int].rpc_port);
                    assert(!crate::registry::registry_wf(reg@));
                }
                return false;
            }
            j = j + 1;
        }
        i = i + 1;
    }
    proof {
        assert forall|a: int, b: int|
            0 <= a < reg@.len() && 0 <= b < reg@.len() && a != b implies reg@[a].service_name
            != reg@[b].service_name && reg@[a].rpc_port != reg@[b].rpc_port by {
            if a < b {
            } else {
            }
        }
    }
    true
}

} // verus!
