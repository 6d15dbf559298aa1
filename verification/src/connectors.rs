//! Exchange and wallet connectors: the transactions they report, the batches
//! they return, their errors, a fixed-batch connector for tests, and how the
//! Hyperliquid ledger and Etherscan transfer lists become transactions.

use vstd::prelude::*;
use crate::numparse::{parse_i64, parse_i64_spec, parse_u32, parse_u32_spec};
use crate::money::{Amount, decimal_of_text, parse_decimal};
use crate::text::{dec_pad, lowercase, push_char, push_u64_padded, to_lowercase};
use rust_decimal::prelude::MathematicalOps;
use crate::time::{MAX_UTC_SECS, MIN_UTC_SECS, clock_of, date_text_at, hms_text, push_date};

verus! {

/// A transaction as an outside source reports it.
#[derive(Debug, PartialEq)]
pub struct ExternalTxn {
    pub external_id: String,
    /// RFC 3339.
    pub occurred_at: String,
    /// deposit | withdrawal | buy | sell
    pub kind: String,
    pub symbol: String,
    pub quantity: String,
    pub fee: Option<String>,
    pub currency: String,
}

/// The new transactions since a cursor, and the cursor to resume from.
#[derive(Debug)]
pub struct SyncBatch {
    pub txns: Vec<ExternalTxn>,
    pub next_cursor: Option<String>,
}

/// Why a connector could not fetch.
#[derive(Debug, PartialEq, Eq)]
pub enum ConnectorError {
    Http(String),
    Parse(String),
    Config(String),
}

impl ConnectorError {
    /// The error as displayed: its kind and detail.
    pub open spec fn message_spec(&self) -> Seq<char> {
        match self {
            ConnectorError::Http(s) => "http error: "@ + s@,
            ConnectorError::Parse(s) => "parse error: "@ + s@,
            ConnectorError::Config(s) => "config error: "@ + s@,
        }
    }

    /// The error as displayed: "http error: …", "parse error: …" or
    /// "config error: …".
    pub fn message(&self) -> (r: String)
        ensures
            r@ == self.message_spec(),
    {
        let (mut out, detail) = match self {
            ConnectorError::Http(s) => (String::from_str("http error: "), s),
            ConnectorError::Parse(s) => (String::from_str("parse error: "), s),
            ConnectorError::Config(s) => (String::from_str("config error: "), s),
        };
        out.append(detail.as_str());
        out
    }
}

/// A source of transactions, polled with the cursor of the previous batch.
pub trait Connector {
    fn fetch_new(&self, cursor: Option<&str>) -> Result<SyncBatch, ConnectorError>;
}

/// Field-for-field copy of a transaction.
pub fn copy_txn(t: &ExternalTxn) -> (r: ExternalTxn)
    ensures
        r == *t,
{
    ExternalTxn {
        external_id: t.external_id.clone(),
        occurred_at: t.occurred_at.clone(),
        kind: t.kind.clone(),
        symbol: t.symbol.clone(),
        quantity: t.quantity.clone(),
        fee: match &t.fee {
            Some(f) => Some(f.clone()),
            None => None,
        },
        currency: t.currency.clone(),
    }
}

/// Returns a fixed batch — used for tests and scheduler smoke runs.
pub struct MockConnector {
    pub txns: Vec<ExternalTxn>,
}

impl MockConnector {
    /// Its fixed transactions, with the cursor "done", whatever the cursor.
    pub fn batch(&self) -> (r: SyncBatch)
        ensures
            r.txns@ == self.txns@,
            r.next_cursor matches Some(c) && c@ == "done"@,
    {
        let mut txns: Vec<ExternalTxn> = Vec::new();
        let mut i: usize = 0;
        while i < self.txns.len()
            invariant
                i <= self.txns.len(),
                txns@ == self.txns@.take(i as int),
            decreases self.txns.len() - i,
        {
            txns.push(copy_txn(&self.txns[i]));
            i += 1;
            assert(txns@ =~= self.txns@.take(i as int));
        }
        assert(self.txns@.take(self.txns.len() as int) =~= self.txns@);
        SyncBatch { txns, next_cursor: Some(String::from_str("done")) }
    }
}

impl Connector for MockConnector {
    fn fetch_new(&self, cursor: Option<&str>) -> (r: Result<SyncBatch, ConnectorError>)
        ensures
            r matches Ok(b) && b.txns@ == self.txns@ && (b.next_cursor matches Some(c) && c@
                == "done"@),
    {
        Ok(self.batch())
    }
}

// ── timestamps ──────────────────────────────────────────────────────────────

/// `DateTime::<Utc>::to_rfc3339` of whole seconds: "%Y-%m-%dT%H:%M:%S+00:00".
pub open spec fn rfc3339_secs_text(t: int) -> Seq<char> {
    date_text_at(t) + seq!['T'] + hms_text(clock_of(t)) + "+00:00"@
}

/// `to_rfc3339` of an instant in milliseconds: the seconds, a three-digit
/// fraction when the milliseconds are not whole seconds, and "+00:00".
pub open spec fn rfc3339_millis_text(ms: int) -> Seq<char> {
    let t = ms / 1000;
    let f = ms % 1000;
    date_text_at(t) + seq!['T'] + hms_text(clock_of(t)) + (if f == 0 {
        Seq::empty()
    } else {
        seq!['.'] + dec_pad(f as nat, 3)
    }) + "+00:00"@
}

fn push_rfc3339_secs(out: &mut String, t: i64)
    requires
        MIN_UTC_SECS <= t <= MAX_UTC_SECS,
    ensures
        final(out)@ == old(out)@ + date_text_at(t as int) + seq!['T'] + hms_text(clock_of(t as int)),
{
    let ghost start = out@;
    let stamp = crate::time::to_db_utc(t);
    // `to_db_utc` ends with 'Z'; everything before it is the date and time.
    let cs = crate::text::chars_of(stamp.as_str());
    assert(cs@ == date_text_at(t as int) + seq!['T'] + hms_text(clock_of(t as int)) + seq!['Z']);
    let body = crate::text::slice_chars(&cs, 0, cs.len() - 1);
    assert(body@ =~= date_text_at(t as int) + seq!['T'] + hms_text(clock_of(t as int)));
    crate::text::push_chars(out, &body);
}

/// `DateTime::from_timestamp(secs, 0)` rendered `to_rfc3339`, or "" when the
/// instant is outside chrono's range.
pub fn rfc3339_of_secs(t: i64) -> (r: String)
    ensures
        r@ == if MIN_UTC_SECS <= t <= MAX_UTC_SECS {
            rfc3339_secs_text(t as int)
        } else {
            Seq::empty()
        },
{
    if t < MIN_UTC_SECS || t > MAX_UTC_SECS {
        return String::new();
    }
    let mut out = String::new();
    push_rfc3339_secs(&mut out, t);
    out.append("+00:00");
    out
}

/// `Utc.timestamp_millis_opt(ms)` rendered `to_rfc3339`, or `fallback` when the
/// instant is outside chrono's range.
pub fn rfc3339_of_millis(ms: i64, fallback: &str) -> (r: String)
    ensures
        r@ == if MIN_UTC_SECS * 1000 <= ms <= MAX_UTC_SECS * 1000 + 999 {
            rfc3339_millis_text(ms as int)
        } else {
            fallback@
        },
{
    if ms < MIN_UTC_SECS * 1000 || ms > MAX_UTC_SECS * 1000 + 999 {
        return String::from_str(fallback);
    }
    let shifted: i64 = ms + 9_002_880_000_000_000;
    let t: i64 = shifted / 1000 - 9_002_880_000_000;
    let f: i64 = shifted % 1000;
    assert(t == ms as int / 1000 && f == ms as int % 1000) by (nonlinear_arith)
        requires
            shifted == ms + 9_002_880_000_000 * 1000,
            shifted >= 0,
            t == shifted / 1000 - 9_002_880_000_000,
            f == shifted % 1000,
    ;
    let mut out = String::new();
    push_rfc3339_secs(&mut out, t);
    if f != 0 {
        push_char(&mut out, '.');
        push_u64_padded(&mut out, f as u64, 3);
    }
    out.append("+00:00");
    assert(out@ =~= rfc3339_millis_text(ms as int));
    out
}

// ── Hyperliquid ─────────────────────────────────────────────────────────────

/// The `delta` of a ledger update, as read from its JSON.
#[derive(Debug, Clone, PartialEq)]
pub struct LedgerDelta {
    /// `delta.type` when it is a string.
    pub kind: Option<String>,
    /// `delta.usdc` when it is a string.
    pub usdc: Option<String>,
}

/// One non-funding ledger update, as read from its JSON.
#[derive(Debug, Clone, PartialEq)]
pub struct LedgerRow {
    /// `time` (epoch ms) when it is an integer.
    pub time_ms: Option<i64>,
    /// `hash` when it is a string.
    pub hash: Option<String>,
    pub delta: Option<LedgerDelta>,
}

/// The transaction kind of a ledger update: deposits and withdrawals only.
pub open spec fn ledger_kind(k: Option<String>) -> Option<Seq<char>> {
    match k {
        Some(s) => if s@ == "deposit"@ {
            Some("deposit"@)
        } else if s@ == "withdraw"@ {
            Some("withdrawal"@)
        } else {
            None
        },
        None => None,
    }
}

/// The transaction a ledger update becomes (USDC deposits and withdrawals).
pub open spec fn ledger_txn_ok(row: LedgerRow, now_text: Seq<char>, t: ExternalTxn) -> bool {
    &&& row.delta matches Some(d)
    &&& ledger_kind(d.kind) matches Some(k)
    &&& d.usdc matches Some(q)
    &&& t.kind@ == k
    &&& t.quantity@ == q@
    &&& t.external_id@ == (match row.hash {
        Some(h) => h@,
        None => Seq::empty(),
    }) + seq![':'] + k
    &&& t.occurred_at@ == {
        let ms = match row.time_ms {
            Some(m) => m as int,
            None => 0,
        };
        if MIN_UTC_SECS * 1000 <= ms <= MAX_UTC_SECS * 1000 + 999 {
            rfc3339_millis_text(ms)
        } else {
            now_text
        }
    }
    &&& t.symbol@ == "USDC"@
    &&& t.fee is None
    &&& t.currency@ == "USD"@
}

/// The ledger updates that become transactions, in order.
pub open spec fn ledger_rows_kept(rows: Seq<LedgerRow>) -> Seq<LedgerRow>
    decreases rows.len(),
{
    if rows.len() == 0 {
        Seq::empty()
    } else {
        let r = rows.last();
        let keep = match r.delta {
            Some(d) => ledger_kind(d.kind) is Some && d.usdc is Some,
            None => false,
        };
        if keep {
            ledger_rows_kept(rows.drop_last()).push(r)
        } else {
            ledger_rows_kept(rows.drop_last())
        }
    }
}

fn ledger_txn(row: &LedgerRow, now_rfc3339: &str) -> (r: Option<ExternalTxn>)
    ensures
        r is None <==> !(row.delta matches Some(d) && ledger_kind(d.kind) is Some && d.usdc is Some),
        r matches Some(t) ==> ledger_txn_ok(*row, now_rfc3339@, t),
{
    proof {
        reveal_strlit("deposit");
        reveal_strlit("withdraw");
        reveal_strlit("withdrawal");
    }
    let d = match &row.delta {
        Some(d) => d,
        None => return None,
    };
    let kind = match &d.kind {
        Some(k) => {
            if *k == String::from_str("deposit") {
                String::from_str("deposit")
            } else if *k == String::from_str("withdraw") {
                String::from_str("withdrawal")
            } else {
                return None;
            }
        },
        None => return None,
    };
    let quantity = match &d.usdc {
        Some(q) => q.clone(),
        None => return None,
    };
    let ms = match row.time_ms {
        Some(m) => m,
        None => 0,
    };
    let occurred_at = rfc3339_of_millis(ms, now_rfc3339);
    let mut external_id = match &row.hash {
        Some(h) => h.clone(),
        None => String::new(),
    };
    push_char(&mut external_id, ':');
    external_id.append(kind.as_str());
    let ghost k = ledger_kind(d.kind).unwrap();
    assert(kind@ == k);
    assert(quantity@ == d.usdc.unwrap()@);
    assert(external_id@ == (match row.hash {
        Some(h) => h@,
        None => Seq::<char>::empty(),
    }) + seq![':'] + k);
    Some(ExternalTxn {
        external_id,
        occurred_at,
        kind,
        symbol: String::from_str("USDC"),
        quantity,
        fee: None,
        currency: String::from_str("USD"),
    })
}

/// Maps non-funding ledger updates to deposit/withdrawal transactions (USDC
/// only). `rows` is `None` when the body is not a JSON array; `now_rfc3339`
/// stamps an update whose time is out of range. The wallet is not consulted.
pub fn parse_ledger(rows: Option<Vec<LedgerRow>>, _wallet: &str, now_rfc3339: &str) -> (r: Result<
    Vec<ExternalTxn>,
    ConnectorError,
>)
    ensures
        rows is None ==> (r matches Err(ConnectorError::Parse(m)) && m@ == "expected ledger array"@),
        rows matches Some(v) ==> (r matches Ok(out) && out@.len() == ledger_rows_kept(v@).len()
            && forall|i: int|
            0 <= i < out@.len() ==> ledger_txn_ok(ledger_rows_kept(v@)[i], now_rfc3339@, #[trigger] out@[i])),
{
    let rows = match rows {
        Some(v) => v,
        None => return Err(ConnectorError::Parse(String::from_str("expected ledger array"))),
    };
    let mut out: Vec<ExternalTxn> = Vec::new();
    let mut i: usize = 0;
    while i < rows.len()
        invariant
            i <= rows.len(),
            out@.len() == ledger_rows_kept(rows@.take(i as int)).len(),
            forall|k: int|
                0 <= k < out@.len() ==> ledger_txn_ok(
                    ledger_rows_kept(rows@.take(i as int))[k],
                    now_rfc3339@,
                    #[trigger] out@[k],
                ),
        decreases rows.len() - i,
    {
        proof {
            assert(rows@.take(i + 1).drop_last() =~= rows@.take(i as int));
            assert(rows@.take(i + 1).last() == rows@[i as int]);
        }
        match ledger_txn(&rows[i], now_rfc3339) {
            Some(t) => out.push(t),
            None => {},
        }
        i += 1;
    }
    assert(rows@.take(rows.len() as int) =~= rows@);
    Ok(out)
}

// ── Etherscan ───────────────────────────────────────────────────────────────

/// One transfer of an Etherscan `txlist`/`tokentx` result, as read from its
/// JSON (each field when it is a string).
#[derive(Debug, Clone, PartialEq)]
pub struct EvmTransfer {
    pub hash: Option<String>,
    pub from: Option<String>,
    pub to: Option<String>,
    pub value: Option<String>,
    pub time_stamp: Option<String>,
    pub token_symbol: Option<String>,
    pub token_decimal: Option<String>,
}

/// The text `rust_decimal` displays for the decimal with the given parts
/// (sign, magnitude, scale) divided by 10^decimals and normalised.
pub uninterp spec fn scaled_down_text(a: (bool, int, int), decimals: int) -> Seq<char>;

/// The quantity text for `raw` base units at `decimals`: the value read from
/// `raw` (zero when unreadable), divided by 10^decimals, normalised and
/// displayed.
pub open spec fn base_units_text(raw: Seq<char>, decimals: int) -> Seq<char> {
    scaled_down_text(
        match decimal_of_text(raw) {
            Some(p) => p,
            None => (false, 0, 0),
        },
        decimals,
    )
}

/// The decimal the parts stand for, divided by
/// `Decimal::from(10).powu(decimals)`, `normalize()`d and displayed
/// (`to_string`). The contract names the result. `powu` panics above 10^28,
/// so `decimals` is at most 28; the division by a power of ten cannot
/// overflow.
#[verifier::external_body]
fn scaled_down(a: &Amount, decimals: u32) -> (r: String)
    requires
        a.wf(),
        decimals <= 28,
    ensures
        r@ == scaled_down_text((a.negative, a.magnitude as int, a.scale as int), decimals as int),
{
    let mut v = rust_decimal::Decimal::from_i128_with_scale(a.magnitude as i128, a.scale);
    v.set_sign_negative(a.negative);
    (v / rust_decimal::Decimal::from(10u64).powu(decimals as u64)).normalize().to_string()
}

/// `raw` base units at `decimals` as a quantity text: an unreadable `raw`
/// counts as zero.
fn base_units_quantity(raw: &str, decimals: u32) -> (r: String)
    requires
        decimals <= 28,
    ensures
        r@ == base_units_text(raw@, decimals as int),
{
    let v = match parse_decimal(raw) {
        Some(a) => a,
        None => Amount { negative: false, magnitude: 0, scale: 0 },
    };
    scaled_down(&v, decimals)
}

pub open spec fn or_empty(o: Option<String>) -> Seq<char> {
    match o {
        Some(s) => s@,
        None => Seq::empty(),
    }
}

/// Deposit when the transfer is to `addr`, withdrawal when it is from it
/// (both compared lowercased); neither otherwise.
pub open spec fn transfer_kind(t: EvmTransfer, addr: Seq<char>) -> Option<Seq<char>> {
    if lowercase(or_empty(t.to)) == lowercase(addr) {
        Some("deposit"@)
    } else if lowercase(or_empty(t.from)) == lowercase(addr) {
        Some("withdrawal"@)
    } else {
        None
    }
}

/// The transfer's time as text: RFC 3339 of its `timeStamp` (0 when
/// unreadable), or "" out of range.
pub open spec fn transfer_time(t: EvmTransfer) -> Seq<char> {
    let ts = match t.time_stamp {
        Some(s) => match parse_i64_spec(s@) {
            Some(v) => v,
            None => 0,
        },
        None => 0,
    };
    if MIN_UTC_SECS <= ts <= MAX_UTC_SECS {
        rfc3339_secs_text(ts)
    } else {
        Seq::empty()
    }
}

/// The value text of a transfer ("0" when absent).
pub open spec fn value_text(t: EvmTransfer) -> Seq<char> {
    match t.value {
        Some(v) => v@,
        None => "0"@,
    }
}

/// The token decimals of a transfer (18 when absent or unreadable).
pub open spec fn token_decimals(t: EvmTransfer) -> int {
    match t.token_decimal {
        Some(s) => match parse_u32_spec(s@) {
            Some(d) => d,
            None => 18,
        },
        None => 18,
    }
}

fn transfer_kind_exec(t: &EvmTransfer, addr_lower: &String, addr: &str) -> (r: Option<String>)
    requires
        addr_lower@ == lowercase(addr@),
    ensures
        opt_seq(r) == transfer_kind(*t, addr@),
{
    let to = match &t.to {
        Some(s) => to_lowercase(s.as_str()),
        None => to_lowercase(""),
    };
    proof {
        reveal_strlit("");
        assert(""@ =~= Seq::<char>::empty());
    }
    if to == *addr_lower {
        return Some(String::from_str("deposit"));
    }
    let from = match &t.from {
        Some(s) => to_lowercase(s.as_str()),
        None => to_lowercase(""),
    };
    if from == *addr_lower {
        Some(String::from_str("withdrawal"))
    } else {
        None
    }
}

pub open spec fn opt_seq(o: Option<String>) -> Option<Seq<char>> {
    match o {
        Some(s) => Some(s@),
        None => None,
    }
}

fn transfer_time_exec(t: &EvmTransfer) -> (r: String)
    ensures
        r@ == transfer_time(*t),
{
    let ts = match &t.time_stamp {
        Some(s) => match parse_i64(s.as_str()) {
            Some(v) => v,
            None => 0,
        },
        None => 0,
    };
    rfc3339_of_secs(ts)
}

/// The native transfers that become transactions: a non-zero value and the
/// address on one side.
pub open spec fn native_kept(ts: Seq<EvmTransfer>, addr: Seq<char>) -> Seq<EvmTransfer>
    decreases ts.len(),
{
    if ts.len() == 0 {
        Seq::empty()
    } else if value_text(ts.last()) != "0"@ && transfer_kind(ts.last(), addr) is Some {
        native_kept(ts.drop_last(), addr).push(ts.last())
    } else {
        native_kept(ts.drop_last(), addr)
    }
}

/// The transaction a native transfer becomes.
pub open spec fn native_txn_ok(t: EvmTransfer, addr: Seq<char>, native: Seq<char>, x: ExternalTxn) -> bool {
    &&& transfer_kind(t, addr) matches Some(k) && x.kind@ == k
    &&& x.external_id@ == or_empty(t.hash) + ":native"@
    &&& x.occurred_at@ == transfer_time(t)
    &&& x.symbol@ == native
    &&& x.quantity@ == base_units_text(value_text(t), 18)
    &&& x.fee is None
    &&& x.currency@ == native
}

/// Parses an Etherscan `txlist` (native transfers) for `address`. `result` is
/// `None` when the payload has no `result` array.
pub fn parse_txlist(result: Option<Vec<EvmTransfer>>, address: &str, native_symbol: &str) -> (r: Result<
    Vec<ExternalTxn>,
    ConnectorError,
>)
    ensures
        result is None ==> (r matches Err(ConnectorError::Parse(m)) && m@ == "no result array"@),
        result matches Some(v) ==> (r matches Ok(out) && out@.len() == native_kept(v@, address@).len()
            && forall|i: int|
            0 <= i < out@.len() ==> native_txn_ok(
                native_kept(v@, address@)[i],
                address@,
                native_symbol@,
                #[trigger] out@[i],
            )),
{
    let ts = match result {
        Some(v) => v,
        None => return Err(ConnectorError::Parse(String::from_str("no result array"))),
    };
    let addr = to_lowercase(address);
    let mut out: Vec<ExternalTxn> = Vec::new();
    let mut i: usize = 0;
    while i < ts.len()
        invariant
            i <= ts.len(),
            addr@ == lowercase(address@),
            out@.len() == native_kept(ts@.take(i as int), address@).len(),
            forall|k: int|
                0 <= k < out@.len() ==> native_txn_ok(
                    native_kept(ts@.take(i as int), address@)[k],
                    address@,
                    native_symbol@,
                    #[trigger] out@[k],
                ),
        decreases ts.len() - i,
    {
        let t = &ts[i];
        proof {
            assert(ts@.take(i + 1).drop_last() =~= ts@.take(i as int));
            assert(ts@.take(i + 1).last() == ts@[i as int]);
        }
        let value = match &t.value {
            Some(v) => v.clone(),
            None => String::from_str("0"),
        };
        if value != String::from_str("0") {
            match transfer_kind_exec(t, &addr, address) {
                Some(kind) => {
                    let mut external_id = match &t.hash {
                        Some(h) => h.clone(),
                        None => String::new(),
                    };
                    external_id.append(":native");
                    let x = ExternalTxn {
                        external_id,
                        occurred_at: transfer_time_exec(t),
                        kind,
                        symbol: String::from_str(native_symbol),
                        quantity: base_units_quantity(value.as_str(), 18),
                        fee: None,
                        currency: String::from_str(native_symbol),
                    };
                    out.push(x);
                },
                None => {},
            }
        }
        i += 1;
    }
    assert(ts@.take(ts.len() as int) =~= ts@);
    Ok(out)
}

/// The token transfers that become transactions: the address on one side.
pub open spec fn token_kept(ts: Seq<EvmTransfer>, addr: Seq<char>) -> Seq<EvmTransfer>
    decreases ts.len(),
{
    if ts.len() == 0 {
        Seq::empty()
    } else if transfer_kind(ts.last(), addr) is Some {
        token_kept(ts.drop_last(), addr).push(ts.last())
    } else {
        token_kept(ts.drop_last(), addr)
    }
}

/// The transaction an ERC-20 transfer becomes.
pub open spec fn token_txn_ok(t: EvmTransfer, addr: Seq<char>, x: ExternalTxn) -> bool {
    &&& transfer_kind(t, addr) matches Some(k) && x.kind@ == k
    &&& x.external_id@ == or_empty(t.hash) + seq![':'] + or_empty(t.token_symbol)
    &&& x.occurred_at@ == transfer_time(t)
    &&& x.symbol@ == or_empty(t.token_symbol)
    &&& x.quantity@ == base_units_text(value_text(t), token_decimals(t))
    &&& x.fee is None
    &&& x.currency@ == Seq::<char>::empty()
}

/// Every transfer's token decimals are within what `rust_decimal` can scale
/// by (at most 28).
pub open spec fn decimals_in_range(ts: Seq<EvmTransfer>) -> bool {
    forall|i: int| 0 <= i < ts.len() ==> token_decimals(#[trigger] ts[i]) <= 28
}

/// Parses an Etherscan `tokentx` (ERC-20 transfers) for `address`. `result`
/// is `None` when the payload has no `result` array.
pub fn parse_tokentx(result: Option<Vec<EvmTransfer>>, address: &str) -> (r: Result<
    Vec<ExternalTxn>,
    ConnectorError,
>)
    requires
        result matches Some(v) ==> decimals_in_range(v@),
    ensures
        result is None ==> (r matches Err(ConnectorError::Parse(m)) && m@ == "no result array"@),
        result matches Some(v) ==> (r matches Ok(out) && out@.len() == token_kept(v@, address@).len()
            && forall|i: int|
            0 <= i < out@.len() ==> token_txn_ok(token_kept(v@, address@)[i], address@, #[trigger] out@[i])),
{
    let ts = match result {
        Some(v) => v,
        None => return Err(ConnectorError::Parse(String::from_str("no result array"))),
    };
    let addr = to_lowercase(address);
    let mut out: Vec<ExternalTxn> = Vec::new();
    let mut i: usize = 0;
    while i < ts.len()
        invariant
            i <= ts.len(),
            addr@ == lowercase(address@),
            decimals_in_range(ts@),
            out@.len() == token_kept(ts@.take(i as int), address@).len(),
            forall|k: int|
                0 <= k < out@.len() ==> token_txn_ok(
                    token_kept(ts@.take(i as int), address@)[k],
                    address@,
                    #[trigger] out@[k],
                ),
        decreases ts.len() - i,
    {
        let t = &ts[i];
        proof {
            assert(ts@.take(i + 1).drop_last() =~= ts@.take(i as int));
            assert(ts@.take(i + 1).last() == ts@[i as int]);
        }
        match transfer_kind_exec(t, &addr, address) {
            Some(kind) => {
                let symbol = match &t.token_symbol {
                    Some(s) => s.clone(),
                    None => String::new(),
                };
                let decimals: u32 = match &t.token_decimal {
                    Some(s) => match parse_u32(s.as_str()) {
                        Some(d) => d,
                        None => 18,
                    },
                    None => 18,
                };
                assert(decimals == token_decimals(ts@[i as int]));
                let value = match &t.value {
                    Some(v) => v.clone(),
                    None => String::from_str("0"),
                };
                let mut external_id = match &t.hash {
                    Some(h) => h.clone(),
                    None => String::new(),
                };
                push_char(&mut external_id, ':');
                external_id.append(symbol.as_str());
                let x = ExternalTxn {
                    external_id,
                    occurred_at: transfer_time_exec(t),
                    kind,
                    symbol,
                    quantity: base_units_quantity(value.as_str(), decimals),
                    fee: None,
                    currency: String::new(),
                };
                assert(x.symbol@ == or_empty(ts@[i as int].token_symbol));
                assert(x.quantity@ == base_units_text(value_text(ts@[i as int]), token_decimals(ts@[i as int])));
                assert(x.external_id@ == or_empty(ts@[i as int].hash) + seq![':'] + or_empty(ts@[i as int].token_symbol));
                assert(token_txn_ok(ts@[i as int], address@, x));
                out.push(x);
            },
            None => {},
        }
        i += 1;
    }
    assert(ts@.take(ts.len() as int) =~= ts@);
    Ok(out)
}

// ── building a connector from its stored row ────────────────────────────────

/// The string fields of a connector's JSON configuration (each `None` when
/// absent or not a string).
#[derive(Debug, Clone, PartialEq)]
pub struct ConnectorConfig {
    pub address: Option<String>,
    pub base_url: Option<String>,
    pub api_key: Option<String>,
    pub native_symbol: Option<String>,
    pub wallet: Option<String>,
    pub network: Option<String>,
}

/// Which connector a stored row describes, with its settings filled in.
#[derive(Debug, PartialEq)]
pub enum ConnectorPlan {
    Evm { address: String, base_url: String, api_key: Option<String>, native_symbol: String },
    Mock,
    Hyperliquid { wallet: String, network: String },
}

pub open spec fn or_default(o: Option<String>, d: Seq<char>) -> Seq<char> {
    match o {
        Some(s) => s@,
        None => d,
    }
}

fn string_or(o: &Option<String>, d: &str) -> (r: String)
    ensures
        r@ == or_default(*o, d@),
{
    match o {
        Some(s) => s.clone(),
        None => String::from_str(d),
    }
}

/// What `build` decides for a row of kind `kind` whose configuration parsed
/// to `cfg`, or failed to parse with the message in `cfg`'s error.
pub open spec fn plan_ok(kind: Seq<char>, cfg: Result<ConnectorConfig, String>, r: Result<ConnectorPlan, ConnectorError>) -> bool {
    match cfg {
        Err(e) => r matches Err(ConnectorError::Config(m)) && m@ == e@,
        Ok(c) => if kind == "evm_wallet"@ {
            match c.address {
                None => r matches Err(ConnectorError::Config(m)) && m@ == "missing address"@,
                Some(a) => r matches Ok(ConnectorPlan::Evm { address, base_url, api_key, native_symbol })
                    && address@ == a@
                    && base_url@ == or_default(c.base_url, "https://api.etherscan.io/api"@)
                    && api_key == c.api_key
                    && native_symbol@ == or_default(c.native_symbol, "ETH"@),
            }
        } else if kind == "mock"@ {
            r matches Ok(ConnectorPlan::Mock)
        } else if kind == "hyperliquid"@ {
            match c.wallet {
                None => r matches Err(ConnectorError::Config(m)) && m@ == "missing wallet"@,
                Some(w) => r matches Ok(ConnectorPlan::Hyperliquid { wallet, network })
                    && wallet@ == w@
                    && network@ == or_default(c.network, "mainnet"@),
            }
        } else {
            r matches Err(ConnectorError::Config(m)) && m@ == "unsupported kind: "@ + kind
        },
    }
}

/// Decides the connector of a stored row: an EVM wallet (Etherscan API and
/// "ETH" by default), the mock, or a Hyperliquid wallet ("mainnet" by
/// default). A configuration that did not parse, a missing address or wallet,
/// and an unknown kind are configuration errors.
pub fn build(kind: &str, cfg: Result<ConnectorConfig, String>) -> (r: Result<ConnectorPlan, ConnectorError>)
    ensures
        plan_ok(kind@, cfg, r),
{
    proof {
        reveal_strlit("evm_wallet");
        reveal_strlit("mock");
        reveal_strlit("hyperliquid");
    }
    let c = match cfg {
        Ok(c) => c,
        Err(e) => return Err(ConnectorError::Config(e)),
    };
    let k = String::from_str(kind);
    if k == String::from_str("evm_wallet") {
        match &c.address {
            None => Err(ConnectorError::Config(String::from_str("missing address"))),
            Some(a) => Ok(ConnectorPlan::Evm {
                address: a.clone(),
                base_url: string_or(&c.base_url, "https://api.etherscan.io/api"),
                api_key: c.api_key.clone(),
                native_symbol: string_or(&c.native_symbol, "ETH"),
            }),
        }
    } else if k == String::from_str("mock") {
        Ok(ConnectorPlan::Mock)
    } else if k == String::from_str("hyperliquid") {
        match &c.wallet {
            None => Err(ConnectorError::Config(String::from_str("missing wallet"))),
            Some(w) => Ok(ConnectorPlan::Hyperliquid { wallet: w.clone(), network: string_or(&c.network, "mainnet") }),
        }
    } else {
        let mut m = String::from_str("unsupported kind: ");
        m.append(kind);
        Err(ConnectorError::Config(m))
    }
}

} // verus!
