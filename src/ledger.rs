use vstd::prelude::*;

use crate::otp::{code_digits, str_eq, Otp, OtpView};

verus! {

/// Why a passcode could not be verified.
#[derive(Clone, Copy, Debug, PartialEq, Eq, Structural)]
pub enum VerifyError {
    /// No passcode is outstanding for the address.
    NotFound,
    /// The store could not be read or written.
    Storage,
}

/// The views of a run of records.
pub open spec fn views(rows: Seq<Otp>) -> Seq<OtpView> {
    rows.map_values(|o: Otp| o@)
}

/// The most recently inserted record for `email`, if any.
pub open spec fn latest_for(rows: Seq<OtpView>, email: Seq<char>) -> Option<OtpView>
    decreases rows.len(),
{
    if rows.len() == 0 {
        None
    } else if rows.last().email == email {
        Some(rows.last())
    } else {
        latest_for(rows.drop_last(), email)
    }
}

/// Whether a record holds `code` for `email`.
pub open spec fn holds_code(r: OtpView, email: Seq<char>, code: Seq<char>) -> bool {
    r.email == email && r.otp == code
}

/// The rows with every record of `code` for `email` deleted.
pub open spec fn without_code(rows: Seq<OtpView>, email: Seq<char>, code: Seq<char>) -> Seq<OtpView> {
    rows.filter(|r: OtpView| !holds_code(r, email, code))
}

/// The rows with every record of `code` for `email` marked as sent.
pub open spec fn marked_sent(rows: Seq<OtpView>, email: Seq<char>, code: Seq<char>) -> Seq<OtpView> {
    rows.map_values(
        |r: OtpView|
            if holds_code(r, email, code) {
                OtpView { sent: true, ..r }
            } else {
                r
            },
    )
}

/// What verifying `code` for `email` answers, and the rows it leaves.
pub open spec fn verify_outcome(rows: Seq<OtpView>, email: Seq<char>, code: Seq<char>) -> (
    Result<bool, VerifyError>,
    Seq<OtpView>,
) {
    match latest_for(rows, email) {
        None => (Err(VerifyError::NotFound), rows),
        Some(r) => if r.otp == code {
            (Ok(true), without_code(rows, email, code))
        } else {
            (Ok(false), rows)
        },
    }
}

/// The ledger of outstanding passcodes, in order of insertion.
pub struct OtpLedger {
    rows: Vec<Otp>,
}

impl View for OtpLedger {
    type V = Seq<OtpView>;

    closed spec fn view(&self) -> Seq<OtpView> {
        views(self.rows@)
    }
}

/// A write transaction on the ledger. It owns the ledger while it is open:
/// `commit` hands back the rows as the transaction left them, `rollback` the
/// rows as they were when it began.
pub struct Transaction {
    before: Vec<Otp>,
    rows: Vec<Otp>,
}

impl View for Transaction {
    type V = Seq<OtpView>;

    closed spec fn view(&self) -> Seq<OtpView> {
        views(self.rows@)
    }
}

impl Transaction {
    /// The rows as they were when the transaction began.
    pub closed spec fn base(&self) -> Seq<OtpView> {
        views(self.before@)
    }

    /// Appends a record.
    pub fn insert(&mut self, otp: Otp)
        ensures
            final(self)@ == old(self)@.push(otp@),
            final(self).base() == old(self).base(),
    {
        self.rows.push(otp);
        assert(views(self.rows@) =~= views(old(self).rows@).push(otp@));
    }

    /// Raises the sent flag of every record of `code` for `email`.
    pub fn mark_sent(&mut self, email: &str, code: &str)
        ensures
            final(self)@ == marked_sent(old(self)@, email@, code@),
            final(self).base() == old(self).base(),
    {
        let n = self.rows.len();
        let mut out: Vec<Otp> = Vec::new();
        let mut i: usize = 0;
        while i < n
            invariant
                n == self.rows@.len(),
                i <= n,
                out@.len() == i,
                forall|j: int|
                    0 <= j < i ==> #[trigger] out@[j]@ == (if holds_code(self@[j], email@, code@) {
                        OtpView { sent: true, ..self@[j] }
                    } else {
                        self@[j]
                    }),
            decreases n - i,
        {
            let mut row = self.rows[i].duplicate();
            if str_eq(row.email(), email) && str_eq(row.otp(), code) {
                row.mark_sent();
            }
            out.push(row);
            i = i + 1;
        }
        assert(views(out@) =~= marked_sent(self@, email@, code@));
        self.rows = out;
    }

    /// Ends the transaction, keeping its writes.
    pub fn commit(self) -> (r: OtpLedger)
        ensures
            r@ == self@,
    {
        OtpLedger { rows: self.rows }
    }

    /// Ends the transaction, discarding its writes.
    pub fn rollback(self) -> (r: OtpLedger)
        ensures
            r@ == self.base(),
    {
        OtpLedger { rows: self.before }
    }
}

fn copy_rows(rows: &Vec<Otp>) -> (r: Vec<Otp>)
    ensures
        views(r@) == views(rows@),
{
    let mut out: Vec<Otp> = Vec::new();
    let mut i: usize = 0;
    while i < rows.len()
        invariant
            i <= rows@.len(),
            out@.len() == i,
            forall|j: int| 0 <= j < i ==> #[trigger] out@[j]@ == rows@[j]@,
        decreases rows@.len() - i,
    {
        out.push(rows[i].duplicate());
        i = i + 1;
    }
    assert(views(out@) =~= views(rows@));
    out
}

proof fn lemma_latest_skip(rows: Seq<OtpView>, email: Seq<char>, i: int)
    requires
        0 <= i <= rows.len(),
        forall|j: int| i <= j < rows.len() ==> rows[j].email != email,
    ensures
        latest_for(rows, email) == latest_for(rows.subrange(0, i), email),
    decreases rows.len(),
{
    if rows.len() == i {
        assert(rows.subrange(0, i) =~= rows);
    } else {
        lemma_latest_skip(rows.drop_last(), email, i);
        assert(rows.drop_last().subrange(0, i) =~= rows.subrange(0, i));
    }
}

proof fn lemma_latest_has_email(rows: Seq<OtpView>, email: Seq<char>)
    ensures
        latest_for(rows, email) matches Some(v) ==> v.email == email,
    decreases rows.len(),
{
    if rows.len() > 0 {
        lemma_latest_has_email(rows.drop_last(), email);
    }
}

proof fn lemma_filter_step(rows: Seq<OtpView>, email: Seq<char>, code: Seq<char>, i: int)
    requires
        0 <= i < rows.len(),
    ensures
        without_code(rows.subrange(0, i + 1), email, code) == if holds_code(rows[i], email, code) {
            without_code(rows.subrange(0, i), email, code)
        } else {
            without_code(rows.subrange(0, i), email, code).push(rows[i])
        },
{
    reveal(Seq::filter);
    assert(rows.subrange(0, i + 1).drop_last() =~= rows.subrange(0, i));
}

impl OtpLedger {
    /// An empty ledger.
    pub fn new() -> (r: OtpLedger)
        ensures
            r@ == Seq::<OtpView>::empty(),
    {
        OtpLedger { rows: Vec::new() }
    }

    /// A ledger holding `records`, in that order.
    pub fn from_records(records: Vec<Otp>) -> (r: OtpLedger)
        ensures
            r@ == views(records@),
    {
        OtpLedger { rows: records }
    }

    /// The number of records.
    pub fn len(&self) -> (r: usize)
        ensures
            r == self@.len(),
    {
        self.rows.len()
    }

    /// The record at position `i`, in order of insertion.
    pub fn record(&self, i: usize) -> (r: &Otp)
        requires
            i < self@.len(),
        ensures
            r@ == self@[i as int],
    {
        &self.rows[i]
    }

    /// Opens a transaction that owns the ledger until it ends.
    pub fn begin(self) -> (t: Transaction)
        ensures
            t@ == self@,
            t.base() == self@,
    {
        let rows = copy_rows(&self.rows);
        Transaction { before: self.rows, rows }
    }

    /// Deletes every record of `code` for `email`.
    pub fn delete(&mut self, email: &str, code: &str)
        ensures
            final(self)@ == without_code(old(self)@, email@, code@),
    {
        let n = self.rows.len();
        let mut out: Vec<Otp> = Vec::new();
        let mut i: usize = 0;
        while i < n
            invariant
                n == self@.len(),
                i <= n,
                views(out@) == without_code(self@.subrange(0, i as int), email@, code@),
            decreases n - i,
        {
            proof {
                lemma_filter_step(self@, email@, code@, i as int);
            }
            let row = &self.rows[i];
            if !(str_eq(row.email(), email) && str_eq(row.otp(), code)) {
                out.push(row.duplicate());
                assert(views(out@) =~= without_code(self@.subrange(0, i as int), email@, code@).push(
                    self@[i as int],
                ));
            }
            i = i + 1;
        }
        assert(self@.subrange(0, n as int) =~= self@);
        self.rows = out;
    }

    /// Checks `code` against the most recent passcode for `email`. A match
    /// consumes the passcode and answers `true`; a mismatch answers `false`
    /// and leaves the ledger as it was.
    pub fn verify_and_consume(&mut self, email: &str, code: &str) -> (r: Result<bool, VerifyError>)
        ensures
            (r, final(self)@) == verify_outcome(old(self)@, email@, code@),
    {
        match Otp::get_otp(email, self) {
            Err(e) => Err(e),
            Ok(otp) => {
                proof {
                    lemma_latest_has_email(old(self)@, email@);
                }
                if otp.verify_otp(code) {
                    otp.otp_used(self);
                    Ok(true)
                } else {
                    Ok(false)
                }
            },
        }
    }
}

impl Otp {
    /// Inserts into the transaction an unsent record for `email` with a
    /// random four-digit code, and returns it.
    pub fn new(email: String, used_for: String, transaction: &mut Transaction) -> (r: Otp)
        ensures
            exists|code: int|
                1000 <= code < 10000 && r@ == (OtpView {
                    email: email@,
                    otp: code_digits(code),
                    created_for: used_for@,
                    used: false,
                    sent: false,
                }),
            final(transaction)@ == old(transaction)@.push(r@),
            final(transaction).base() == old(transaction).base(),
    {
        let code = Otp::gen_otp();
        let otp = Otp::with_code(email, used_for, code);
        transaction.insert(otp.duplicate());
        otp
    }

    /// Marks every stored record of this record's code for its address as
    /// sent; this record itself is left as it is.
    pub fn otp_sent(&mut self, transaction: &mut Transaction)
        ensures
            final(self)@ == old(self)@,
            final(transaction)@ == marked_sent(old(transaction)@, old(self)@.email, old(self)@.otp),
            final(transaction).base() == old(transaction).base(),
    {
        transaction.mark_sent(self.email(), self.otp());
    }

    /// Deletes this record's code for its address from the ledger.
    pub fn otp_used(&self, ledger: &mut OtpLedger)
        ensures
            final(ledger)@ == without_code(old(ledger)@, self@.email, self@.otp),
    {
        ledger.delete(self.email(), self.otp());
    }

    /// The most recently inserted record for `email`.
    pub fn get_otp(email: &str, ledger: &OtpLedger) -> (r: Result<Otp, VerifyError>)
        ensures
            match latest_for(ledger@, email@) {
                Some(v) => r matches Ok(o) && o@ == v,
                None => r == Err::<Otp, VerifyError>(VerifyError::NotFound),
            },
    {
        let mut i: usize = ledger.rows.len();
        while i > 0
            invariant
                i <= ledger@.len(),
                forall|j: int| i <= j < ledger@.len() ==> ledger@[j].email != email@,
            decreases i,
        {
            i = i - 1;
            if str_eq(ledger.rows[i].email(), email) {
                proof {
                    lemma_latest_skip(ledger@, email@, i + 1);
                    assert(ledger@.subrange(0, i + 1).last() == ledger@[i as int]);
                }
                return Ok(ledger.rows[i].duplicate());
            }
        }
        proof {
            lemma_latest_skip(ledger@, email@, 0);
        }
        Err(VerifyError::NotFound)
    }
}

/// The rows left after verifying each of `guesses` in turn for `email`.
pub open spec fn after_attempts(rows: Seq<OtpView>, email: Seq<char>, guesses: Seq<Seq<char>>) -> Seq<OtpView>
    decreases guesses.len(),
{
    if guesses.len() == 0 {
        rows
    } else {
        after_attempts(verify_outcome(rows, email, guesses[0]).1, email, guesses.drop_first())
    }
}

proof fn lemma_without_code_drops_all(rows: Seq<OtpView>, email: Seq<char>, code: Seq<char>)
    ensures
        forall|j: int|
            0 <= j < without_code(rows, email, code).len() ==> !holds_code(
                #[trigger] without_code(rows, email, code)[j],
                email,
                code,
            ),
{
    assert forall|j: int| 0 <= j < without_code(rows, email, code).len() implies !holds_code(
        #[trigger] without_code(rows, email, code)[j],
        email,
        code,
    ) by {
        rows.lemma_filter_pred(|r: OtpView| !holds_code(r, email, code), j);
    }
}

proof fn lemma_no_address_left(rows: Seq<OtpView>, email: Seq<char>, code: Seq<char>)
    requires
        forall|j: int| 0 <= j < rows.len() && (#[trigger] rows[j]).email == email ==> rows[j].otp == code,
    ensures
        latest_for(without_code(rows, email, code), email) is None,
    decreases rows.len(),
{
    reveal(Seq::filter);
    if rows.len() > 0 {
        let init = rows.drop_last();
        assert forall|j: int| 0 <= j < init.len() && (#[trigger] init[j]).email == email implies init[j].otp
            == code by {
            assert(init[j] == rows[j]);
        }
        lemma_no_address_left(init, email, code);
        if !holds_code(rows.last(), email, code) {
            let kept = without_code(init, email, code).push(rows.last());
            assert(kept.drop_last() =~= without_code(init, email, code));
        }
    }
}

/// Verifying a code for an address that holds a passcode answers `true`
/// exactly when the code equals the most recent stored code; then every
/// record of that code for that address is deleted. Otherwise it answers
/// `false` and the ledger is unchanged.
pub proof fn lemma_verify_consumes_iff_match(rows: Seq<OtpView>, email: Seq<char>, code: Seq<char>)
    requires
        latest_for(rows, email) is Some,
    ensures
        ({
            let stored = latest_for(rows, email)->Some_0;
            let (r, after) = verify_outcome(rows, email, code);
            &&& (r == Ok::<bool, VerifyError>(true)) == (stored.otp == code)
            &&& r == Ok::<bool, VerifyError>(true) ==> after == without_code(rows, email, code)
                && forall|j: int| 0 <= j < after.len() ==> !holds_code(#[trigger] after[j], email, code)
            &&& r != Ok::<bool, VerifyError>(true) ==> r == Ok::<bool, VerifyError>(false) && after == rows
        }),
{
    lemma_without_code_drops_all(rows, email, code);
}

/// Once the only code outstanding for an address has been consumed, a
/// further verification for that address finds no passcode.
pub proof fn lemma_consumed_then_not_found(
    rows: Seq<OtpView>,
    email: Seq<char>,
    code: Seq<char>,
    again: Seq<char>,
)
    requires
        verify_outcome(rows, email, code).0 == Ok::<bool, VerifyError>(true),
        forall|j: int| 0 <= j < rows.len() && (#[trigger] rows[j]).email == email ==> rows[j].otp == code,
    ensures
        verify_outcome(verify_outcome(rows, email, code).1, email, again).0 == Err::<bool, VerifyError>(
            VerifyError::NotFound,
        ),
{
    lemma_no_address_left(rows, email, code);
}

/// Wrong guesses, however many, answer `false` and leave the ledger as it
/// was: there is no lockout and the passcode stays in place.
pub proof fn lemma_failed_attempts_keep_ledger(rows: Seq<OtpView>, email: Seq<char>, guesses: Seq<Seq<char>>)
    requires
        latest_for(rows, email) is Some,
        forall|k: int| 0 <= k < guesses.len() ==> #[trigger] guesses[k] != latest_for(rows, email)->Some_0.otp,
    ensures
        after_attempts(rows, email, guesses) == rows,
        forall|k: int| 0 <= k < guesses.len() ==> verify_outcome(rows, email, #[trigger] guesses[k]) == (
            Ok::<bool, VerifyError>(false),
            rows,
        ),
    decreases guesses.len(),
{
    if guesses.len() > 0 {
        let rest = guesses.drop_first();
        assert forall|k: int| 0 <= k < rest.len() implies #[trigger] rest[k] != latest_for(rows, email)->Some_0.otp by {
            assert(rest[k] == guesses[k + 1]);
        }
        lemma_failed_attempts_keep_ledger(rows, email, rest);
    }
}

} // verus!
