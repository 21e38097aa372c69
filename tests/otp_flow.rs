use birthday_wisher::issue::{IssueError, IssueStep, MailOutbox};
use birthday_wisher::ledger::{OtpLedger, VerifyError};
use birthday_wisher::otp::{code_text, Otp};

fn rows_for(ledger: &OtpLedger, email: &str) -> usize {
    let mut n = 0;
    for i in 0..ledger.len() {
        if ledger.record(i).email() == email {
            n += 1;
        }
    }
    n
}

#[test]
fn issue_with_working_mail_stores_one_sent_row() {
    let mut ledger = OtpLedger::new();
    let mut outbox = MailOutbox::accepting();
    let r = ledger.issue("a@x.com", "signup", &mut outbox);
    assert_eq!(r, Ok(()));
    assert_eq!(ledger.len(), 1);
    let row = ledger.record(0);
    assert_eq!(row.email(), "a@x.com");
    assert_eq!(row.created_for(), "signup");
    assert!(row.is_sent());
    assert!(!row.is_used());
    assert_eq!(row.otp().len(), 4);
    let code: u32 = row.otp().parse().unwrap();
    assert!((1000..10000).contains(&code));
    assert_eq!(outbox.len(), 1);
    let mail = outbox.message(0);
    assert_eq!(mail.to, "a@x.com");
    assert_eq!(mail.subject, "otp");
    assert_eq!(mail.otp, row.otp());
    assert_eq!(mail.used_for, "signup");
}

#[test]
fn issue_with_failing_mail_leaves_no_row() {
    let mut ledger = OtpLedger::new();
    let mut outbox = MailOutbox::refusing();
    let r = ledger.issue("a@x.com", "signup", &mut outbox);
    assert_eq!(r, Err(IssueError::Mail));
    assert_eq!(rows_for(&ledger, "a@x.com"), 0);
    assert_eq!(ledger.len(), 0);
    assert_eq!(outbox.len(), 1);
}

#[test]
fn failed_mail_keeps_earlier_rows() {
    let mut ledger = OtpLedger::new();
    let mut ok = MailOutbox::accepting();
    ledger.issue_with_code("c@z.com", "login", 1234, &mut ok).unwrap();
    let mut bad = MailOutbox::refusing();
    assert_eq!(ledger.issue_with_code("c@z.com", "login", 5678, &mut bad), Err(IssueError::Mail));
    assert_eq!(ledger.len(), 1);
    assert_eq!(ledger.record(0).otp(), "1234");
    assert!(ledger.record(0).is_sent());
}

#[test]
fn wrong_code_then_right_code() {
    let mut ledger = OtpLedger::new();
    let mut outbox = MailOutbox::accepting();
    assert_eq!(ledger.issue_with_code("b@y.com", "login", 4821, &mut outbox), Ok(()));
    assert_eq!(outbox.message(0).otp, "4821");
    assert_eq!(ledger.verify_and_consume("b@y.com", "0000"), Ok(false));
    assert_eq!(rows_for(&ledger, "b@y.com"), 1);
    assert_eq!(ledger.record(0).otp(), "4821");
    assert!(ledger.record(0).is_sent());
    assert_eq!(ledger.verify_and_consume("b@y.com", "4821"), Ok(true));
    assert_eq!(rows_for(&ledger, "b@y.com"), 0);
}

#[test]
fn verify_on_empty_ledger_is_not_found() {
    let mut ledger = OtpLedger::new();
    assert_eq!(ledger.verify_and_consume("nouser@z.com", "1234"), Err(VerifyError::NotFound));
    assert_eq!(ledger.len(), 0);
}

#[test]
fn second_consumption_is_not_found() {
    let mut ledger = OtpLedger::new();
    let mut outbox = MailOutbox::accepting();
    ledger.issue_with_code("d@w.com", "signup", 2468, &mut outbox).unwrap();
    assert_eq!(ledger.verify_and_consume("d@w.com", "2468"), Ok(true));
    assert_eq!(ledger.verify_and_consume("d@w.com", "2468"), Err(VerifyError::NotFound));
}

#[test]
fn repeated_wrong_guesses_change_nothing() {
    let mut ledger = OtpLedger::new();
    let mut outbox = MailOutbox::accepting();
    ledger.issue_with_code("e@v.com", "login", 9999, &mut outbox).unwrap();
    for guess in ["1111", "9998", "99999", "", " 9999", "9999 "] {
        assert_eq!(ledger.verify_and_consume("e@v.com", guess), Ok(false));
        assert_eq!(ledger.len(), 1);
        assert_eq!(ledger.record(0).otp(), "9999");
        assert!(ledger.record(0).is_sent());
    }
    assert_eq!(ledger.verify_and_consume("e@v.com", "9999"), Ok(true));
}

#[test]
fn verification_uses_the_most_recent_code() {
    let mut ledger = OtpLedger::new();
    let mut outbox = MailOutbox::accepting();
    ledger.issue_with_code("f@u.com", "login", 1000, &mut outbox).unwrap();
    ledger.issue_with_code("f@u.com", "login", 2000, &mut outbox).unwrap();
    assert_eq!(ledger.verify_and_consume("f@u.com", "1000"), Ok(false));
    assert_eq!(ledger.verify_and_consume("f@u.com", "2000"), Ok(true));
    assert_eq!(ledger.len(), 1);
    assert_eq!(ledger.verify_and_consume("f@u.com", "1000"), Ok(true));
    assert_eq!(ledger.len(), 0);
}

#[test]
fn other_addresses_are_untouched() {
    let mut ledger = OtpLedger::new();
    let mut outbox = MailOutbox::accepting();
    ledger.issue_with_code("g@t.com", "login", 3333, &mut outbox).unwrap();
    ledger.issue_with_code("h@s.com", "login", 3333, &mut outbox).unwrap();
    assert_eq!(ledger.verify_and_consume("g@t.com", "3333"), Ok(true));
    assert_eq!(ledger.len(), 1);
    assert_eq!(ledger.record(0).email(), "h@s.com");
}

#[test]
fn transaction_rollback_and_commit() {
    let ledger = OtpLedger::new();
    let mut t = ledger.begin();
    let otp = Otp::new("i@r.com".to_string(), "signup".to_string(), &mut t);
    assert!(!otp.is_sent());
    let ledger = t.rollback();
    assert_eq!(ledger.len(), 0);
    let mut t = ledger.begin();
    let mut otp = Otp::new("i@r.com".to_string(), "signup".to_string(), &mut t);
    otp.otp_sent(&mut t);
    assert!(!otp.is_sent());
    let mut ledger = t.commit();
    assert_eq!(ledger.len(), 1);
    assert!(ledger.record(0).is_sent());
    let found = Otp::get_otp("i@r.com", &ledger).unwrap();
    assert_eq!(found.otp(), otp.otp());
    found.otp_used(&mut ledger);
    assert_eq!(ledger.len(), 0);
}

#[test]
fn code_text_has_four_digits() {
    assert_eq!(code_text(1000), "1000");
    assert_eq!(code_text(4821), "4821");
    assert_eq!(code_text(9999), "9999");
    assert_eq!(code_text(1203), "1203");
}

#[test]
fn generated_codes_stay_in_range() {
    for _ in 0..200 {
        let c = Otp::gen_otp();
        assert!((1000..10000).contains(&c));
    }
}

#[test]
fn template_carries_code_and_purpose() {
    let otp = Otp::with_code("j@q.com".to_string(), "Signup".to_string(), 7070);
    let t = otp.get_opt_template();
    assert_eq!(t.otp, "7070");
    assert_eq!(t.used_for, "Signup");
    assert!(otp.verify_otp("7070"));
    assert!(!otp.verify_otp("707"));
}

fn drive(outcomes: &[bool]) -> IssueStep {
    let mut step = IssueStep::Begin;
    for &ok in outcomes {
        if step.is_finished() {
            break;
        }
        step = step.next(ok);
    }
    step
}

#[test]
fn issue_steps_success_path() {
    assert_eq!(drive(&[true, true, true, true]), IssueStep::Commit);
    assert_eq!(drive(&[true, true, true, true, true]), IssueStep::Done);
    assert_eq!(IssueStep::Done.outcome(), Some(Ok(())));
}

#[test]
fn issue_steps_failures() {
    assert_eq!(drive(&[false]), IssueStep::Failed(IssueError::Storage));
    assert_eq!(drive(&[true, false]), IssueStep::Rollback(IssueError::Storage));
    assert_eq!(drive(&[true, true, false]), IssueStep::Rollback(IssueError::Mail));
    assert_eq!(drive(&[true, true, false, true]), IssueStep::Failed(IssueError::Mail));
    assert_eq!(drive(&[true, true, false, false]), IssueStep::Failed(IssueError::Storage));
    assert_eq!(drive(&[true, true, true, false, true]), IssueStep::Failed(IssueError::Storage));
    assert_eq!(drive(&[true, true, true, true, false]), IssueStep::Failed(IssueError::Storage));
    assert_eq!(IssueStep::Failed(IssueError::Mail).outcome(), Some(Err(IssueError::Mail)));
    assert_eq!(IssueStep::SendMail.outcome(), None);
}
