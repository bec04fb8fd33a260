//! Byte accounting for one transfer, and its access-log line.
//!
//! A `TransferAccount` counts the bytes of every block that reaches the
//! transport and hands out the log line once, the first time the transfer
//! is finalized, however its stream came to an end.
use vstd::prelude::*;
use vstd::string::StringExecFns;
use bytes::Bytes;

use crate::block::block_content;

verus! {

/// The decimal digit for `d < 10`.
pub open spec fn digit_char(d: nat) -> char {
    if d == 0 { '0' }
    else if d == 1 { '1' }
    else if d == 2 { '2' }
    else if d == 3 { '3' }
    else if d == 4 { '4' }
    else if d == 5 { '5' }
    else if d == 6 { '6' }
    else if d == 7 { '7' }
    else if d == 8 { '8' }
    else { '9' }
}

/// `n` written in decimal, without leading zeros.
pub open spec fn decimal(n: nat) -> Seq<char>
    decreases n,
{
    if n < 10 {
        seq![digit_char(n)]
    } else {
        decimal(n / 10).push(digit_char(n % 10))
    }
}

/// The text of an optional header, empty where it is absent.
pub open spec fn opt_text(o: Option<String>) -> Seq<char> {
    match o {
        Some(s) => s@,
        None => Seq::empty(),
    }
}

/// The client as the log shows it: its address, or `unknown`.
pub open spec fn client_field(o: Option<String>) -> Seq<char> {
    match o {
        Some(s) => s@,
        None => seq!['u', 'n', 'k', 'n', 'o', 'w', 'n'],
    }
}

/// The byte count as the log shows it: `-` where nothing was sent.
pub open spec fn length_field(n: u64) -> Seq<char> {
    if n == 0 {
        seq!['-']
    } else {
        decimal(n as nat)
    }
}

/// What the access log says of one request, but the bytes sent.
pub struct TransferRecord {
    /// The client's address, as resolved from the connection and headers.
    pub client: Option<String>,
    pub date: String,
    pub method: String,
    pub path: String,
    pub version: String,
    pub status: u16,
    pub referer: Option<String>,
    pub agent: Option<String>,
}

/// The access-log line of a transfer that sent `length` bytes:
/// `<client> - - <date> "<method> <path> <version>" <status> <length> "<referer>" "<agent>"`.
pub open spec fn log_line(r: TransferRecord, length: u64) -> Seq<char> {
    client_field(r.client) + seq![' ', '-', ' ', '-', ' '] + r.date@ + seq![' ', '"'] + r.method@
        + seq![' '] + r.path@ + seq![' '] + r.version@ + seq!['"', ' '] + decimal(r.status as nat)
        + seq![' '] + length_field(length) + seq![' ', '"'] + opt_text(r.referer) + seq![
        '"',
        ' ',
        '"',
    ] + opt_text(r.agent) + seq!['"']
}

/// Appends the decimal digit `d`.
fn push_digit(out: &mut String, d: u64)
    requires
        d < 10,
    ensures
        final(out)@ == old(out)@.push(digit_char(d as nat)),
{
    let s: &str = if d == 0 { "0" }
        else if d == 1 { "1" }
        else if d == 2 { "2" }
        else if d == 3 { "3" }
        else if d == 4 { "4" }
        else if d == 5 { "5" }
        else if d == 6 { "6" }
        else if d == 7 { "7" }
        else if d == 8 { "8" }
        else { "9" };
    proof {
        reveal_strlit("0");
        reveal_strlit("1");
        reveal_strlit("2");
        reveal_strlit("3");
        reveal_strlit("4");
        reveal_strlit("5");
        reveal_strlit("6");
        reveal_strlit("7");
        reveal_strlit("8");
        reveal_strlit("9");
    }
    out.append(s);
    assert(out@ =~= old(out)@.push(digit_char(d as nat)));
}

/// Appends `n` in decimal.
pub fn push_decimal(out: &mut String, n: u64)
    ensures
        final(out)@ == old(out)@ + decimal(n as nat),
    decreases n,
{
    if n >= 10 {
        push_decimal(out, n / 10);
    }
    push_digit(out, n % 10);
    assert(out@ =~= old(out)@ + decimal(n as nat));
}

/// Appends the text of an optional header, nothing where it is absent.
fn push_opt(out: &mut String, o: &Option<String>)
    ensures
        final(out)@ == old(out)@ + opt_text(*o),
{
    match o {
        Some(s) => out.append(s.as_str()),
        None => {},
    }
    assert(out@ =~= old(out)@ + opt_text(*o));
}

/// The access-log line of a transfer of `record` that sent `length` bytes.
pub fn format_line(record: &TransferRecord, length: u64) -> (r: String)
    ensures
        r@ == log_line(*record, length),
{
    proof {
        reveal_strlit("unknown");
        reveal_strlit(" - - ");
        reveal_strlit(" \"");
        reveal_strlit(" ");
        reveal_strlit("\" ");
        reveal_strlit("-");
        reveal_strlit("\" \"");
        reveal_strlit("\"");
    }
    let mut out = String::new();
    match &record.client {
        Some(c) => out.append(c.as_str()),
        None => out.append("unknown"),
    }
    assert(out@ =~= client_field(record.client));
    out.append(" - - ");
    out.append(record.date.as_str());
    out.append(" \"");
    out.append(record.method.as_str());
    out.append(" ");
    out.append(record.path.as_str());
    out.append(" ");
    out.append(record.version.as_str());
    out.append("\" ");
    push_decimal(&mut out, record.status as u64);
    out.append(" ");
    let ghost before_len = out@;
    if length == 0 {
        out.append("-");
    } else {
        push_decimal(&mut out, length);
    }
    assert(out@ =~= before_len + length_field(length));
    out.append(" \"");
    push_opt(&mut out, &record.referer);
    out.append("\" \"");
    push_opt(&mut out, &record.agent);
    out.append("\"");
    assert(out@ =~= log_line(*record, length));
    out
}

/// What a transfer account is.
pub struct AccountView {
    pub record: TransferRecord,
    /// Bytes that reached the transport so far.
    pub length: u64,
    /// Whether a log line is wanted at all.
    pub logging: bool,
    /// Whether the account has been finalized.
    pub fired: bool,
}

/// `a + b`, or `u64::MAX` where that does not fit.
pub open spec fn sat_add(a: u64, b: nat) -> u64 {
    if a + b > u64::MAX {
        u64::MAX
    } else {
        (a + b) as u64
    }
}

/// The log line that finalizing hands out: one the first time, when logging
/// is wanted, and none ever after.
pub open spec fn final_line(v: AccountView) -> Option<Seq<char>> {
    if v.logging && !v.fired {
        Some(log_line(v.record, v.length))
    } else {
        None
    }
}

/// Counts the bytes of one transfer and hands out its log line once.
pub struct TransferAccount {
    record: TransferRecord,
    length: u64,
    logging: bool,
    fired: bool,
}

impl View for TransferAccount {
    type V = AccountView;

    closed spec fn view(&self) -> AccountView {
        AccountView {
            record: self.record,
            length: self.length,
            logging: self.logging,
            fired: self.fired,
        }
    }
}

impl TransferAccount {
    /// An account with nothing counted; `logging` says whether a line is
    /// wanted when it is finalized.
    pub fn new(record: TransferRecord, logging: bool) -> (r: TransferAccount)
        ensures
            r@ == (AccountView { record, length: 0, logging, fired: false }),
    {
        TransferAccount { record, length: 0, logging, fired: false }
    }

    /// Bytes counted so far.
    pub fn length(&self) -> (r: u64)
        ensures
            r == self@.length,
    {
        self.length
    }

    /// Whether the account has been finalized.
    pub fn is_finalized(&self) -> (r: bool)
        ensures
            r == self@.fired,
    {
        self.fired
    }

    /// Counts `n` more bytes as sent.
    pub fn add(&mut self, n: u64)
        ensures
            final(self)@ == (AccountView { length: sat_add(old(self)@.length, n as nat), ..old(self)@ }),
    {
        self.length = self.length.saturating_add(n);
    }

    /// Counts a block that reaches the transport and hands it on unchanged.
    pub fn count(&mut self, block: Bytes) -> (r: Bytes)
        ensures
            r == block,
            final(self)@ == (AccountView {
                length: sat_add(old(self)@.length, block_content(block).len()),
                ..old(self)@
            }),
    {
        let n = block.len();
        self.add(n as u64);
        block
    }

    /// Ends the transfer's accounting. The first call hands out the log
    /// line, where logging is wanted; every later call hands out nothing.
    pub fn finalize(&mut self) -> (r: Option<String>)
        ensures
            final(self)@ == (AccountView { fired: true, ..old(self)@ }),
            final_line(old(self)@) is None ==> r is None,
            final_line(old(self)@) is Some ==> (r matches Some(line) && line@ == final_line(
                old(self)@,
            )->0),
    {
        if self.fired || !self.logging {
            self.fired = true;
            return None;
        }
        self.fired = true;
        Some(format_line(&self.record, self.length))
    }
}

/// One thing done to an account.
pub enum AccountOp {
    /// A block of this many bytes reached the transport.
    Count(nat),
    /// The stream ended, or was dropped.
    Finalize,
}

/// The account after one operation, and the line it handed out, if any.
pub open spec fn account_step(v: AccountView, op: AccountOp) -> (AccountView, Option<Seq<char>>) {
    match op {
        AccountOp::Count(n) => (AccountView { length: sat_add(v.length, n), ..v }, None),
        AccountOp::Finalize => (AccountView { fired: true, ..v }, final_line(v)),
    }
}

/// The account after a run of operations, and the lines it handed out.
pub open spec fn account_run(v: AccountView, ops: Seq<AccountOp>) -> (AccountView, Seq<Seq<char>>)
    decreases ops.len(),
{
    if ops.len() == 0 {
        (v, Seq::empty())
    } else {
        let (v1, line) = account_step(v, ops[0]);
        let (v2, lines) = account_run(v1, ops.drop_first());
        match line {
            Some(l) => (v2, seq![l] + lines),
            None => (v2, lines),
        }
    }
}

/// Bytes counted before the first `Finalize`, added up as the account does.
pub open spec fn counted_before_finalize(length: u64, ops: Seq<AccountOp>) -> u64
    decreases ops.len(),
{
    if ops.len() == 0 {
        length
    } else {
        match ops[0] {
            AccountOp::Count(n) => counted_before_finalize(sat_add(length, n), ops.drop_first()),
            AccountOp::Finalize => length,
        }
    }
}

/// Whether a run holds a `Finalize`.
pub open spec fn has_finalize(ops: Seq<AccountOp>) -> bool {
    exists|i: int| 0 <= i < ops.len() && ops[i] is Finalize
}

/// However a transfer ends, and however often its end is reported, a fresh
/// account that wants logging hands out exactly one line once its end has
/// been reported at least once, and none before; that line shows the bytes
/// counted before the first report.
pub proof fn lemma_finalize_once(v: AccountView, ops: Seq<AccountOp>)
    requires
        v.logging,
        !v.fired,
    ensures
        has_finalize(ops) ==> account_run(v, ops).1 == seq![
            log_line(v.record, counted_before_finalize(v.length, ops)),
        ],
        !has_finalize(ops) ==> account_run(v, ops).1.len() == 0,
    decreases ops.len(),
{
    if ops.len() > 0 {
        let rest = ops.drop_first();
        match ops[0] {
            AccountOp::Count(n) => {
                lemma_finalize_once(AccountView { length: sat_add(v.length, n), ..v }, rest);
                if has_finalize(ops) {
                    let i = choose|i: int| 0 <= i < ops.len() && ops[i] is Finalize;
                    assert(rest[i - 1] is Finalize);
                }
                if has_finalize(rest) {
                    let i = choose|i: int| 0 <= i < rest.len() && rest[i] is Finalize;
                    assert(ops[i + 1] is Finalize);
                }
            },
            AccountOp::Finalize => {
                lemma_fired_silent(AccountView { fired: true, ..v }, rest);
                assert(ops[0] is Finalize);
            },
        }
    }
}

/// A finalized account hands out nothing more.
pub proof fn lemma_fired_silent(v: AccountView, ops: Seq<AccountOp>)
    requires
        v.fired,
    ensures
        account_run(v, ops).1.len() == 0,
        account_run(v, ops).0.fired,
    decreases ops.len(),
{
    if ops.len() > 0 {
        let v1 = account_step(v, ops[0]).0;
        lemma_fired_silent(v1, ops.drop_first());
    }
}

} // verus!
