use vstd::prelude::*;

use crate::ledger::{holds_code, marked_sent, OtpLedger, Transaction};
use crate::otp::{code_digits, Otp, OtpView};

verus! {

/// Why a passcode could not be issued.
#[derive(Clone, Copy, Debug, PartialEq, Eq, Structural)]
pub enum IssueError {
    /// The mail transport did not take the passcode mail.
    Mail,
    /// The store could not be read or written.
    Storage,
}

/// Where an issuance stands: each step but the last two names the action to
/// perform next, and the outcome of that action decides the following step.
#[derive(Clone, Copy, Debug, PartialEq, Eq, Structural)]
pub enum IssueStep {
    /// Open a transaction.
    Begin,
    /// Insert the unsent record inside the transaction.
    Insert,
    /// Hand the passcode mail to the transport.
    SendMail,
    /// Mark the record as sent inside the transaction.
    MarkSent,
    /// Commit the transaction.
    Commit,
    /// Roll the transaction back, then fail with the error carried.
    Rollback(IssueError),
    /// The passcode was stored, mailed and committed.
    Done,
    /// The issuance failed with the error carried.
    Failed(IssueError),
}

/// The step that follows `step` once its action has succeeded or failed.
pub open spec fn next_step(step: IssueStep, succeeded: bool) -> IssueStep {
    match step {
        IssueStep::Begin => if succeeded {
            IssueStep::Insert
        } else {
            IssueStep::Failed(IssueError::Storage)
        },
        IssueStep::Insert => if succeeded {
            IssueStep::SendMail
        } else {
            IssueStep::Rollback(IssueError::Storage)
        },
        IssueStep::SendMail => if succeeded {
            IssueStep::MarkSent
        } else {
            IssueStep::Rollback(IssueError::Mail)
        },
        IssueStep::MarkSent => if succeeded {
            IssueStep::Commit
        } else {
            IssueStep::Rollback(IssueError::Storage)
        },
        IssueStep::Commit => if succeeded {
            IssueStep::Done
        } else {
            IssueStep::Failed(IssueError::Storage)
        },
        IssueStep::Rollback(e) => if succeeded {
            IssueStep::Failed(e)
        } else {
            IssueStep::Failed(IssueError::Storage)
        },
        IssueStep::Done => IssueStep::Done,
        IssueStep::Failed(e) => IssueStep::Failed(e),
    }
}

/// The step reached from `step` when the actions performed on the way have
/// the outcomes `outcomes`, in order.
pub open spec fn run_steps(step: IssueStep, outcomes: Seq<bool>) -> IssueStep
    decreases outcomes.len(),
{
    if outcomes.len() == 0 {
        step
    } else {
        run_steps(next_step(step, outcomes[0]), outcomes.drop_first())
    }
}

impl IssueStep {
    /// Whether the issuance has ended.
    pub open spec fn finished(self) -> bool {
        self is Done || self is Failed
    }

    /// Whether the issuance has ended.
    pub fn is_finished(&self) -> (r: bool)
        ensures
            r == self.finished(),
    {
        match self {
            IssueStep::Done | IssueStep::Failed(_) => true,
            _ => false,
        }
    }

    /// The step after this one, given whether its action succeeded.
    pub fn next(self, succeeded: bool) -> (r: IssueStep)
        requires
            !self.finished(),
        ensures
            r == next_step(self, succeeded),
    {
        match self {
            IssueStep::Begin => if succeeded {
                IssueStep::Insert
            } else {
                IssueStep::Failed(IssueError::Storage)
            },
            IssueStep::Insert => if succeeded {
                IssueStep::SendMail
            } else {
                IssueStep::Rollback(IssueError::Storage)
            },
            IssueStep::SendMail => if succeeded {
                IssueStep::MarkSent
            } else {
                IssueStep::Rollback(IssueError::Mail)
            },
            IssueStep::MarkSent => if succeeded {
                IssueStep::Commit
            } else {
                IssueStep::Rollback(IssueError::Storage)
            },
            IssueStep::Commit => if succeeded {
                IssueStep::Done
            } else {
                IssueStep::Failed(IssueError::Storage)
            },
            IssueStep::Rollback(e) => if succeeded {
                IssueStep::Failed(e)
            } else {
                IssueStep::Failed(IssueError::Storage)
            },
            IssueStep::Done => IssueStep::Done,
            IssueStep::Failed(e) => IssueStep::Failed(e),
        }
    }

    /// What the issuance returns once it has ended.
    pub fn outcome(&self) -> (r: Option<Result<(), IssueError>>)
        ensures
            match self {
                IssueStep::Done => r == Some(Ok::<(), IssueError>(())),
                IssueStep::Failed(e) => r == Some(Err::<(), IssueError>(*e)),
                _ => r is None,
            },
    {
        match self {
            IssueStep::Done => Some(Ok(())),
            IssueStep::Failed(e) => Some(Err(*e)),
            _ => None,
        }
    }
}

/// A passcode mail as handed to the transport.
pub struct MailView {
    pub to: Seq<char>,
    pub subject: Seq<char>,
    pub otp: Seq<char>,
    pub used_for: Seq<char>,
}

/// A passcode mail: its recipient and subject, and the code and purpose its
/// body is rendered from.
pub struct OutgoingMail {
    pub to: String,
    pub subject: String,
    pub otp: String,
    pub used_for: String,
}

impl View for OutgoingMail {
    type V = MailView;

    open spec fn view(&self) -> MailView {
        MailView { to: self.to@, subject: self.subject@, otp: self.otp@, used_for: self.used_for@ }
    }
}

/// The subject line of a passcode mail.
pub open spec fn otp_subject() -> Seq<char> {
    seq!['o', 't', 'p']
}

/// The mail that announces `code`, issued to `email` for `purpose`.
pub open spec fn otp_mail(email: Seq<char>, purpose: Seq<char>, code: int) -> MailView {
    MailView { to: email, subject: otp_subject(), otp: code_digits(code), used_for: purpose }
}

/// An in-memory mail transport: it keeps every mail handed to it, and either
/// takes them all or refuses them all.
pub struct MailOutbox {
    messages: Vec<OutgoingMail>,
    refusing: bool,
}

impl View for MailOutbox {
    type V = Seq<MailView>;

    closed spec fn view(&self) -> Seq<MailView> {
        self.messages@.map_values(|m: OutgoingMail| m@)
    }
}

impl MailOutbox {
    /// Whether this transport refuses the mail handed to it.
    pub closed spec fn refuses(&self) -> bool {
        self.refusing
    }

    /// A transport that takes every mail.
    pub fn accepting() -> (r: MailOutbox)
        ensures
            r@ == Seq::<MailView>::empty(),
            !r.refuses(),
    {
        MailOutbox { messages: Vec::new(), refusing: false }
    }

    /// A transport that refuses every mail.
    pub fn refusing() -> (r: MailOutbox)
        ensures
            r@ == Seq::<MailView>::empty(),
            r.refuses(),
    {
        MailOutbox { messages: Vec::new(), refusing: true }
    }

    /// Hands a mail to the transport; answers whether it was taken.
    pub fn send(&mut self, mail: OutgoingMail) -> (r: bool)
        ensures
            final(self)@ == old(self)@.push(mail@),
            final(self).refuses() == old(self).refuses(),
            r == !old(self).refuses(),
    {
        let ghost m = mail@;
        self.messages.push(mail);
        assert(self@ =~= old(self)@.push(m));
        !self.refusing
    }

    /// The number of mails handed to the transport.
    pub fn len(&self) -> (r: usize)
        ensures
            r == self@.len(),
    {
        self.messages.len()
    }

    /// The mail handed over at position `i`.
    pub fn message(&self, i: usize) -> (r: &OutgoingMail)
        requires
            i < self@.len(),
        ensures
            r@ == self@[i as int],
    {
        &self.messages[i]
    }
}

/// The unsent record that issuing `code` to `email` for `purpose` inserts.
pub open spec fn fresh_record(email: Seq<char>, purpose: Seq<char>, code: int) -> OtpView {
    OtpView { email, otp: code_digits(code), created_for: purpose, used: false, sent: false }
}

/// What issuing `code` to `email` for `purpose` on the ledger `rows`
/// returns, and the rows it leaves, when the transport takes the mail or not.
pub open spec fn issue_outcome(
    rows: Seq<OtpView>,
    email: Seq<char>,
    purpose: Seq<char>,
    code: int,
    delivered: bool,
) -> (Result<(), IssueError>, Seq<OtpView>) {
    if delivered {
        (Ok(()), marked_sent(rows.push(fresh_record(email, purpose, code)), email, code_digits(code)))
    } else {
        (Err(IssueError::Mail), rows)
    }
}

impl OtpLedger {
    /// Issues `code` to `email` for `purpose` through `outbox`: inside one
    /// transaction the unsent record is inserted, the mail is handed over
    /// once, and only if it was taken is the record marked sent and the
    /// transaction committed; otherwise the transaction is rolled back.
    pub fn issue_with_code(&mut self, email: &str, purpose: &str, code: i32, outbox: &mut MailOutbox) -> (r:
        Result<(), IssueError>)
        requires
            1000 <= code < 10000,
        ensures
            final(outbox)@ == old(outbox)@.push(otp_mail(email@, purpose@, code as int)),
            final(outbox).refuses() == old(outbox).refuses(),
            (r, final(self)@) == issue_outcome(old(self)@, email@, purpose@, code as int, !old(outbox).refuses()),
    {
        let mut ledger = OtpLedger::new();
        std::mem::swap(self, &mut ledger);
        let mut step = IssueStep::Begin;
        let mut transaction = ledger.begin();
        step = step.next(true);
        let mut otp = Otp::with_code(String::from_str(email), String::from_str(purpose), code);
        transaction.insert(otp.duplicate());
        step = step.next(true);
        let template = otp.get_opt_template();
        let mail = OutgoingMail {
            to: String::from_str(email),
            subject: String::from_str("otp"),
            otp: String::from_str(template.otp),
            used_for: String::from_str(template.used_for),
        };
        proof {
            reveal_strlit("otp");
        }
        assert(mail.subject@ =~= otp_subject());
        assert(mail@ == otp_mail(email@, purpose@, code as int));
        let delivered = outbox.send(mail);
        step = step.next(delivered);
        if delivered {
            otp.otp_sent(&mut transaction);
            step = step.next(true);
            let committed = transaction.commit();
            *self = committed;
            step = step.next(true);
        } else {
            let restored = transaction.rollback();
            *self = restored;
            step = step.next(true);
        }
        assert(step == IssueStep::Done || step == IssueStep::Failed(IssueError::Mail));
        match step.outcome() {
            Some(result) => result,
            None => Err(IssueError::Storage),
        }
    }

    /// Issues a random four-digit code to `email` for `purpose` through
    /// `outbox`, as `issue_with_code` does.
    pub fn issue(&mut self, email: &str, purpose: &str, outbox: &mut MailOutbox) -> (r: Result<(), IssueError>)
        ensures
            exists|code: int|
                1000 <= code < 10000 && final(outbox)@ == old(outbox)@.push(otp_mail(email@, purpose@, code))
                    && (r, final(self)@) == issue_outcome(old(self)@, email@, purpose@, code, !old(outbox).refuses()),
            final(outbox).refuses() == old(outbox).refuses(),
    {
        let code = Otp::gen_otp();
        self.issue_with_code(email, purpose, code, outbox)
    }
}

proof fn lemma_finished_stays(step: IssueStep, outcomes: Seq<bool>)
    requires
        step.finished(),
    ensures
        run_steps(step, outcomes) == step,
    decreases outcomes.len(),
{
    if outcomes.len() > 0 {
        lemma_finished_stays(next_step(step, outcomes[0]), outcomes.drop_first());
    }
}

proof fn lemma_run_one(step: IssueStep, outcomes: Seq<bool>)
    requires
        outcomes.len() > 0,
    ensures
        run_steps(step, outcomes) == run_steps(next_step(step, outcomes[0]), outcomes.drop_first()),
{
}

proof fn lemma_rollback_never_done(e: IssueError, outcomes: Seq<bool>)
    ensures
        run_steps(IssueStep::Rollback(e), outcomes) != IssueStep::Done,
        outcomes.len() > 0 ==> run_steps(IssueStep::Rollback(e), outcomes) == if outcomes[0] {
            IssueStep::Failed(e)
        } else {
            IssueStep::Failed(IssueError::Storage)
        },
{
    if outcomes.len() > 0 {
        lemma_run_one(IssueStep::Rollback(e), outcomes);
        lemma_finished_stays(next_step(IssueStep::Rollback(e), outcomes[0]), outcomes.drop_first());
    }
}

/// An issuance ends in success only if the transaction was opened, the
/// record inserted, the mail taken, the record marked sent and the
/// transaction committed, each in turn.
pub proof fn lemma_done_only_after_every_action(outcomes: Seq<bool>)
    requires
        run_steps(IssueStep::Begin, outcomes) == IssueStep::Done,
    ensures
        outcomes.len() >= 5,
        outcomes[0] && outcomes[1] && outcomes[2] && outcomes[3] && outcomes[4],
{
    let o0 = outcomes;
    if o0.len() > 0 {
        lemma_run_one(IssueStep::Begin, o0);
        let o1 = o0.drop_first();
        if !o0[0] {
            lemma_finished_stays(IssueStep::Failed(IssueError::Storage), o1);
        } else if o1.len() > 0 {
            lemma_run_one(IssueStep::Insert, o1);
            let o2 = o1.drop_first();
            if !o1[0] {
                lemma_rollback_never_done(IssueError::Storage, o2);
            } else if o2.len() > 0 {
                lemma_run_one(IssueStep::SendMail, o2);
                let o3 = o2.drop_first();
                if !o2[0] {
                    lemma_rollback_never_done(IssueError::Mail, o3);
                } else if o3.len() > 0 {
                    lemma_run_one(IssueStep::MarkSent, o3);
                    let o4 = o3.drop_first();
                    if !o3[0] {
                        lemma_rollback_never_done(IssueError::Storage, o4);
                    } else if o4.len() > 0 {
                        lemma_run_one(IssueStep::Commit, o4);
                        if !o4[0] {
                            lemma_finished_stays(IssueStep::Failed(IssueError::Storage), o4.drop_first());
                        }
                    }
                }
            }
        }
    }
}

/// When the transaction opens and the record is inserted but the transport
/// refuses the mail, the next action is a rollback, and the issuance fails
/// with a mail error if the rollback succeeds and a storage error if not.
pub proof fn lemma_refused_mail_rolls_back(outcomes: Seq<bool>)
    requires
        outcomes.len() >= 4,
        outcomes[0],
        outcomes[1],
        !outcomes[2],
    ensures
        run_steps(IssueStep::Begin, outcomes.take(3)) == IssueStep::Rollback(IssueError::Mail),
        run_steps(IssueStep::Begin, outcomes) == if outcomes[3] {
            IssueStep::Failed(IssueError::Mail)
        } else {
            IssueStep::Failed(IssueError::Storage)
        },
{
    let t0 = outcomes.take(3);
    lemma_run_one(IssueStep::Begin, t0);
    let t1 = t0.drop_first();
    lemma_run_one(IssueStep::Insert, t1);
    let t2 = t1.drop_first();
    lemma_run_one(IssueStep::SendMail, t2);
    assert(t2.drop_first().len() == 0);
    let o0 = outcomes;
    lemma_run_one(IssueStep::Begin, o0);
    let o1 = o0.drop_first();
    lemma_run_one(IssueStep::Insert, o1);
    let o2 = o1.drop_first();
    lemma_run_one(IssueStep::SendMail, o2);
    let o3 = o2.drop_first();
    assert(o3[0] == outcomes[3]);
    lemma_rollback_never_done(IssueError::Mail, o3);
}

/// A successful issuance of a code that the address did not hold leaves
/// exactly one record of that code for that address: the new one, marked
/// sent, after the records that were there, which are unchanged.
pub proof fn lemma_issue_success_leaves_one_sent_record(
    rows: Seq<OtpView>,
    email: Seq<char>,
    purpose: Seq<char>,
    code: int,
)
    requires
        1000 <= code < 10000,
        forall|j: int| 0 <= j < rows.len() ==> !holds_code(#[trigger] rows[j], email, code_digits(code)),
    ensures
        ({
            let (r, after) = issue_outcome(rows, email, purpose, code, true);
            &&& r == Ok::<(), IssueError>(())
            &&& after.len() == rows.len() + 1
            &&& after.last() == (OtpView { sent: true, ..fresh_record(email, purpose, code) })
            &&& forall|j: int| 0 <= j < rows.len() ==> #[trigger] after[j] == rows[j]
            &&& forall|j: int|
                0 <= j < after.len() && holds_code(#[trigger] after[j], email, code_digits(code)) ==> j
                    == rows.len()
        }),
{
    let after = issue_outcome(rows, email, purpose, code, true).1;
    let pushed = rows.push(fresh_record(email, purpose, code));
    assert(forall|j: int| 0 <= j < rows.len() ==> pushed[j] == #[trigger] rows[j]);
}

/// A refused mail leaves the ledger as it was, so no record of the code
/// that was drawn exists for the address afterward, if none did before.
pub proof fn lemma_refused_mail_leaves_no_record(
    rows: Seq<OtpView>,
    email: Seq<char>,
    purpose: Seq<char>,
    code: int,
)
    requires
        1000 <= code < 10000,
        forall|j: int| 0 <= j < rows.len() ==> !holds_code(#[trigger] rows[j], email, code_digits(code)),
    ensures
        ({
            let (r, after) = issue_outcome(rows, email, purpose, code, false);
            &&& r == Err::<(), IssueError>(IssueError::Mail)
            &&& after == rows
            &&& forall|j: int|
                0 <= j < after.len() ==> !holds_code(#[trigger] after[j], email, code_digits(code))
        }),
{
}

} // verus!
