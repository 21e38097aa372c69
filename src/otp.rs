use vstd::prelude::*;

verus! {

/// The character for a decimal digit.
pub open spec fn digit_char(d: int) -> char {
    if d == 0 {
        '0'
    } else if d == 1 {
        '1'
    } else if d == 2 {
        '2'
    } else if d == 3 {
        '3'
    } else if d == 4 {
        '4'
    } else if d == 5 {
        '5'
    } else if d == 6 {
        '6'
    } else if d == 7 {
        '7'
    } else if d == 8 {
        '8'
    } else {
        '9'
    }
}

/// The four-digit decimal text of a code in `1000..10000`.
pub open spec fn code_digits(n: int) -> Seq<char> {
    seq![
        digit_char(n / 1000),
        digit_char((n / 100) % 10),
        digit_char((n / 10) % 10),
        digit_char(n % 10),
    ]
}

fn digit_text(d: i32) -> (r: &'static str)
    requires
        0 <= d < 10,
    ensures
        r@ == seq![digit_char(d as int)],
{
    if d == 0 {
        proof { reveal_strlit("0"); }
        "0"
    } else if d == 1 {
        proof { reveal_strlit("1"); }
        "1"
    } else if d == 2 {
        proof { reveal_strlit("2"); }
        "2"
    } else if d == 3 {
        proof { reveal_strlit("3"); }
        "3"
    } else if d == 4 {
        proof { reveal_strlit("4"); }
        "4"
    } else if d == 5 {
        proof { reveal_strlit("5"); }
        "5"
    } else if d == 6 {
        proof { reveal_strlit("6"); }
        "6"
    } else if d == 7 {
        proof { reveal_strlit("7"); }
        "7"
    } else if d == 8 {
        proof { reveal_strlit("8"); }
        "8"
    } else {
        proof { reveal_strlit("9"); }
        "9"
    }
}

/// The decimal text of a four-digit code.
pub fn code_text(n: i32) -> (r: String)
    requires
        1000 <= n < 10000,
    ensures
        r@ == code_digits(n as int),
{
    let mut s = String::new();
    s.append(digit_text(n / 1000));
    s.append(digit_text((n / 100) % 10));
    s.append(digit_text((n / 10) % 10));
    s.append(digit_text(n % 10));
    assert(s@ =~= code_digits(n as int));
    s
}


/// A passcode record as the ledger sees it.
pub struct OtpView {
    pub email: Seq<char>,
    pub otp: Seq<char>,
    pub created_for: Seq<char>,
    pub used: bool,
    pub sent: bool,
}

/// One row of the passcode ledger: the code issued to an address, the
/// purpose it was issued for, and whether it has been mailed.
pub struct Otp {
    email: String,
    otp: String,
    created_for: String,
    used: bool,
    sent: bool,
}

/// The values that the passcode mail is rendered from.
pub struct OtpTemp<'a> {
    pub otp: &'a str,
    pub used_for: &'a str,
}

impl View for Otp {
    type V = OtpView;

    closed spec fn view(&self) -> OtpView {
        OtpView {
            email: self.email@,
            otp: self.otp@,
            created_for: self.created_for@,
            used: self.used,
            sent: self.sent,
        }
    }
}

/// Relies on rand's `thread_rng` and `Rng::gen_range`: a value drawn from the
/// half-open range `1000..10000`, which is not empty.
#[verifier::external_body]
fn draw_code() -> (r: i32)
    ensures
        1000 <= r < 10000,
{
    rand::Rng::gen_range(&mut rand::thread_rng(), 1000..10000)
}

impl Otp {
    /// A fresh, unsent record for `email` holding the four-digit `code`.
    pub fn with_code(email: String, used_for: String, code: i32) -> (r: Otp)
        requires
            1000 <= code < 10000,
        ensures
            r@ == (OtpView {
                email: email@,
                otp: code_digits(code as int),
                created_for: used_for@,
                used: false,
                sent: false,
            }),
    {
        Otp { email, otp: code_text(code), created_for: used_for, used: false, sent: false }
    }

    /// A record as it was stored.
    pub fn from_row(email: String, otp: String, created_for: String, used: bool, sent: bool) -> (r: Otp)
        ensures
            r@ == (OtpView { email: email@, otp: otp@, created_for: created_for@, used, sent }),
    {
        Otp { email, otp, created_for, used, sent }
    }

    /// A random four-digit code.
    pub fn gen_otp() -> (r: i32)
        ensures
            1000 <= r < 10000,
    {
        draw_code()
    }

    /// The values that the mail announcing this code is rendered from.
    pub fn get_opt_template(&self) -> (r: OtpTemp)
        ensures
            r.otp@ == self@.otp,
            r.used_for@ == self@.created_for,
    {
        OtpTemp { otp: self.otp.as_str(), used_for: self.created_for.as_str() }
    }

    /// Whether `otp` is exactly the stored code.
    pub fn verify_otp(&self, otp: &str) -> (r: bool)
        ensures
            r == (self@.otp == otp@),
    {
        str_eq(self.otp.as_str(), otp)
    }

    pub fn email(&self) -> (r: &str)
        ensures
            r@ == self@.email,
    {
        self.email.as_str()
    }

    pub fn otp(&self) -> (r: &str)
        ensures
            r@ == self@.otp,
    {
        self.otp.as_str()
    }

    pub fn created_for(&self) -> (r: &str)
        ensures
            r@ == self@.created_for,
    {
        self.created_for.as_str()
    }

    pub fn is_used(&self) -> (r: bool)
        ensures
            r == self@.used,
    {
        self.used
    }

    pub fn is_sent(&self) -> (r: bool)
        ensures
            r == self@.sent,
    {
        self.sent
    }

    /// A copy of this record.
    pub fn duplicate(&self) -> (r: Otp)
        ensures
            r@ == self@,
    {
        Otp {
            email: self.email.clone(),
            otp: self.otp.clone(),
            created_for: self.created_for.clone(),
            used: self.used,
            sent: self.sent,
        }
    }

    /// This record with its sent flag raised.
    pub fn mark_sent(&mut self)
        ensures
            final(self)@ == (OtpView { sent: true, ..old(self)@ }),
    {
        self.sent = true;
    }
}

/// Exact, character-by-character equality of two texts.
pub fn str_eq(a: &str, b: &str) -> (r: bool)
    ensures
        r == (a@ == b@),
{
    let n = a.unicode_len();
    if n != b.unicode_len() {
        return false;
    }
    let mut i: usize = 0;
    while i < n
        invariant
            n == a@.len(),
            n == b@.len(),
            i <= n,
            a@.subrange(0, i as int) == b@.subrange(0, i as int),
        decreases n - i,
    {
        if a.get_char(i) != b.get_char(i) {
            assert(a@[i as int] != b@[i as int]);
            return false;
        }
        assert(a@.subrange(0, i + 1) =~= a@.subrange(0, i as int).push(a@[i as int]));
        assert(b@.subrange(0, i + 1) =~= b@.subrange(0, i as int).push(b@[i as int]));
        i = i + 1;
    }
    assert(a@ =~= a@.subrange(0, n as int));
    assert(b@ =~= b@.subrange(0, n as int));
    true
}

} // verus!
