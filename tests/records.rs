use birthday_wisher::command::{Command, Opts};
use birthday_wisher::error::{ApiError, FriendError};
use birthday_wisher::friend::{BirthdayWisher, CalendarDate, Friend, Friends, NewFriend};
use birthday_wisher::handler::{
    add_friend_error, created_user, friend_not_found, issued_reply, login_user, signup_precheck,
    verify_reply,
};
use birthday_wisher::issue::{IssueError, MailOutbox};
use birthday_wisher::ledger::VerifyError;
use birthday_wisher::ledger::OtpLedger;
use birthday_wisher::user::{NewUser, User, UserError, UserStore};
use birthday_wisher::validate::{email_validation, val, EmailPattern, Validation};

#[test]
fn test_email_validator() {
    let email1 = "testemial.com";
    let email2 = "test@email.com";

    match val(email1) {
        Validation::Valid => assert!(false),
        Validation::Invalid(_) => assert!(true),
    }
    match val(email2) {
        Validation::Valid => assert!(true),
        Validation::Invalid(_) => assert!(false),
    }
}

#[test]
fn utils_test_email_validator() {
    let email1 = "testemial.com";
    let email2 = "test@email.com";

    let test1 = val(email1);
    match test1 {
        Validation::Valid => assert!(false),
        Validation::Invalid(_) => assert!(true),
    }
    let test2 = val(email2);
    match test2 {
        Validation::Valid => assert!(true),
        Validation::Invalid(_) => assert!(false),
    }
}

#[test]
fn validator_messages() {
    match val("nope") {
        Validation::Invalid(m) => assert_eq!(m, "nope is not a valid email"),
        Validation::Valid => panic!("accepted"),
    }
    match email_validation("x", None) {
        Validation::Invalid(m) => assert_eq!(m, "Sorry Something went wrong"),
        Validation::Valid => panic!("accepted"),
    }
    let p = EmailPattern::new().unwrap();
    assert!(p.accepts("first.last@mail.example.org"));
    assert!(!p.accepts("a@b"));
    assert!(!p.accepts("a@b.toolong"));
}

#[test]
fn users_are_created_once() {
    let mut store = UserStore::new();
    let u = NewUser { name: "Ann".to_string(), email: "ann@x.com".to_string() };
    let created = u.add(&mut store).unwrap();
    assert_eq!(created.id, 1);
    assert_eq!(created.name, "Ann");
    assert_eq!(u.add(&mut store).unwrap_err(), UserError::UserAlreadyExist);
    let v = NewUser { name: "Bob".to_string(), email: "bob@x.com".to_string() };
    assert_eq!(v.add(&mut store).unwrap().id, 2);
    assert_eq!(store.len(), 2);
    assert_eq!(User::get_user_by_email(&store, "bob@x.com").unwrap().name, "Bob");
    assert_eq!(User::get_user_by_email(&store, "cat@x.com").unwrap_err(), UserError::UserNotFound);
}

#[test]
fn user_send_otp_issues_to_own_address() {
    let mut store = UserStore::new();
    let user = NewUser { name: "Cy".to_string(), email: "cy@x.com".to_string() }.add(&mut store).unwrap();
    let mut ledger = OtpLedger::new();
    let mut outbox = MailOutbox::accepting();
    assert_eq!(user.send_otp("Signup", &mut ledger, &mut outbox), Ok(()));
    assert_eq!(ledger.record(0).email(), "cy@x.com");
    assert_eq!(outbox.message(0).used_for, "Signup");
    let mut refusing = MailOutbox::refusing();
    assert_eq!(user.send_otp("Login", &mut ledger, &mut refusing), Err(IssueError::Mail));
    assert_eq!(ledger.len(), 1);
}

#[test]
fn api_errors_answer_status_and_message() {
    assert_eq!(ApiError::BadRequest("Invalid OTP".to_string()).into_parts(), (400, "Invalid OTP".to_string()));
    assert_eq!(ApiError::NotFound("gone".to_string()).into_parts(), (404, "gone".to_string()));
    assert_eq!(ApiError::InternalServerError.into_parts(), (500, "Internal Server Error".to_string()));
    assert_eq!(ApiError::EmailError.into_parts(), (500, "Failed to send Email".to_string()));
    assert_eq!(ApiError::TransactionError("t".to_string()).into_parts(), (500, "t".to_string()));
    let j = ApiError::JsonExtractionRejection { status: 422, body: "bad".to_string() };
    assert_eq!(j.into_parts(), (422, "bad".to_string()));
    assert!(matches!(ApiError::from_issue(IssueError::Mail), ApiError::EmailError));
    assert!(matches!(ApiError::from_issue(IssueError::Storage), ApiError::InternalServerError));
}

fn date(y: i32, m: u32, d: u32) -> CalendarDate {
    CalendarDate::new(y, m, d).unwrap()
}

#[test]
fn calendar_dates() {
    assert!(CalendarDate::new(2024, 2, 29).is_some());
    assert!(CalendarDate::new(2023, 2, 29).is_none());
    assert!(CalendarDate::new(1900, 2, 29).is_none());
    assert!(CalendarDate::new(2000, 2, 29).is_some());
    assert!(CalendarDate::new(2023, 4, 31).is_none());
    assert!(CalendarDate::new(2023, 13, 1).is_none());
    assert!(CalendarDate::new(2023, 1, 0).is_none());
    assert_eq!(date(2023, 12, 31).day, 31);
}

#[test]
fn friends_add_get_remove() {
    let mut friends = Friends::new();
    let a = NewFriend { name: "Ann".to_string(), email: "ann@x.com".to_string(), dob: date(1990, 5, 17) };
    let added = a.add(&mut friends).unwrap();
    assert_eq!(added.id, 1);
    assert_eq!(a.add(&mut friends).unwrap_err(), FriendError::FriendAlreadyExist);
    let b = NewFriend { name: "Bob".to_string(), email: "bob@x.com".to_string(), dob: date(1985, 1, 2) };
    assert_eq!(b.add(&mut friends).unwrap().id, 2);
    assert_eq!(Friend::get_friend(&friends, 2).unwrap().name, "Bob");
    assert_eq!(Friend::get_friend(&friends, 7).unwrap_err(), FriendError::FriendNotFound);
    let removed = added.remove_friend(&mut friends).unwrap();
    assert_eq!(removed.email, "ann@x.com");
    assert_eq!(friends.friends.len(), 1);
    assert_eq!(added.remove_friend(&mut friends).unwrap_err(), FriendError::FriendNotFound);
    let c = NewFriend { name: "Cy".to_string(), email: "cy@x.com".to_string(), dob: date(2000, 3, 3) };
    assert_eq!(c.add(&mut friends).unwrap().id, 3);
}

#[test]
fn birthdays_match_month_and_day() {
    let mut friends = Friends::new();
    for (name, email, d) in [
        ("Ann", "ann@x.com", date(1990, 5, 17)),
        ("Bob", "bob@x.com", date(1985, 5, 18)),
        ("Cy", "cy@x.com", date(2001, 5, 17)),
        ("Di", "di@x.com", date(2001, 6, 17)),
    ] {
        NewFriend { name: name.to_string(), email: email.to_string(), dob: d }.add(&mut friends).unwrap();
    }
    let today = date(2026, 5, 17);
    let names: Vec<String> =
        friends.get_list_of_birthday_friends(today).into_iter().map(|f| f.name).collect();
    assert_eq!(names, vec!["Ann".to_string(), "Cy".to_string()]);
    assert!(friends.get_list_of_birthday_friends(date(2026, 1, 1)).is_empty());
    assert_eq!(friends.friends[0].birthday_subject(), "Happy Birthday Ann!");
}

#[test]
fn menu_and_command_line() {
    let labels: Vec<String> = BirthdayWisher::options().iter().map(|c| c.label()).collect();
    assert_eq!(labels, vec!["Add Friend", "Remove Friend", "Show Friends", "Clear Screen", "Exit"]);
    assert_eq!(Opts { command: None }.chosen(), Command::Run);
    assert_eq!(Opts { command: Some(Command::Serve) }.chosen(), Command::Serve);
    assert_eq!(Opts { command: Some(Command::Send) }.chosen(), Command::Send);
}

#[test]
fn handler_replies() {
    let ann = || User { id: 1, name: "Ann".to_string(), email: "ann@x.com".to_string() };
    match signup_precheck(&Ok(ann())) {
        Err(ApiError::BadRequest(m)) => assert_eq!(m, "User Already Exist with given email id"),
        other => panic!("{:?}", other),
    }
    assert!(signup_precheck(&Err(UserError::UserNotFound)).is_ok());
    assert!(matches!(signup_precheck(&Err(UserError::Storage)), Err(ApiError::InternalServerError)));
    assert_eq!(created_user(Ok(ann())).unwrap().email, "ann@x.com");
    assert!(matches!(created_user(Err(UserError::Storage)), Err(ApiError::InternalServerError)));
    assert_eq!(login_user(Ok(ann())).unwrap().id, 1);
    match login_user(Err(UserError::UserNotFound)) {
        Err(ApiError::NotFound(m)) => assert_eq!(m, "User Not Found with given email id"),
        other => panic!("{:?}", other),
    }
    assert!(matches!(login_user(Err(UserError::Storage)), Err(ApiError::InternalServerError)));

    let ok = issued_reply(Ok(()), "User Created").unwrap();
    assert_eq!((ok.status, ok.message.as_str()), (200, "User Created"));
    assert!(matches!(issued_reply(Err(IssueError::Mail), "x"), Err(ApiError::EmailError)));
    assert!(matches!(issued_reply(Err(IssueError::Storage), "x"), Err(ApiError::InternalServerError)));

    let verified = verify_reply(Ok(true)).unwrap();
    assert_eq!((verified.status, verified.message.as_str()), (200, "OTP Verified"));
    match verify_reply(Ok(false)) {
        Err(ApiError::BadRequest(m)) => assert_eq!(m, "Invalid OTP"),
        other => panic!("{:?}", other),
    }
    match verify_reply(Err(VerifyError::NotFound)) {
        Err(ApiError::NotFound(m)) => assert_eq!(m, "OTP Not Found with given email id"),
        other => panic!("{:?}", other),
    }
    assert!(matches!(verify_reply(Err(VerifyError::Storage)), Err(ApiError::InternalServerError)));

    let exists = add_friend_error(FriendError::FriendAlreadyExist);
    assert_eq!((exists.status, exists.message.as_str()), (400, "Friend Already Exist with given email id"));
    let other = add_friend_error(FriendError::Storage);
    assert_eq!((other.status, other.message.as_str()), (500, "Something went wrong"));
    let missing = friend_not_found();
    assert_eq!((missing.status, missing.message.as_str()), (404, "Friend Not Found with Given Id"));
}
