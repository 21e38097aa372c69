use vstd::prelude::*;

use crate::error::FriendError;
use crate::otp::str_eq;

verus! {

/// Whether `year` is a leap year of the Gregorian calendar.
pub open spec fn is_leap_year(year: int) -> bool {
    (year % 4 == 0 && year % 100 != 0) || year % 400 == 0
}

/// The number of days of `month` (1 to 12) in `year`.
pub open spec fn days_in_month(year: int, month: int) -> int {
    if month == 2 {
        if is_leap_year(year) {
            29
        } else {
            28
        }
    } else if month == 4 || month == 6 || month == 9 || month == 11 {
        30
    } else {
        31
    }
}

/// A day of the Gregorian calendar.
#[derive(Clone, Copy, Debug, PartialEq, Eq, Structural)]
pub struct CalendarDate {
    pub year: i32,
    pub month: u32,
    pub day: u32,
}

impl CalendarDate {
    /// Whether the fields name a day that exists.
    pub open spec fn is_valid(self) -> bool {
        1 <= self.month <= 12 && 1 <= self.day <= days_in_month(self.year as int, self.month as int)
    }

    /// The day `day` of `month` in `year`, if there is such a day.
    pub fn new(year: i32, month: u32, day: u32) -> (r: Option<CalendarDate>)
        ensures
            r matches Some(d) ==> d == (CalendarDate { year, month, day }),
            r is Some <==> (CalendarDate { year, month, day }).is_valid(),
    {
        if month < 1 || month > 12 || day < 1 {
            return None;
        }
        let leap = (year % 4 == 0 && year % 100 != 0) || year % 400 == 0;
        let days: u32 = if month == 2 {
            if leap {
                29
            } else {
                28
            }
        } else if month == 4 || month == 6 || month == 9 || month == 11 {
            30
        } else {
            31
        };
        if day > days {
            None
        } else {
            Some(CalendarDate { year, month, day })
        }
    }
}

/// A friend as the list sees it.
pub struct FriendView {
    pub id: int,
    pub name: Seq<char>,
    pub email: Seq<char>,
    pub dob: CalendarDate,
}

/// A friend: a name, an address and a date of birth.
#[derive(Debug)]
pub struct Friend {
    pub id: i32,
    pub name: String,
    pub email: String,
    pub dob: CalendarDate,
}

impl View for Friend {
    type V = FriendView;

    open spec fn view(&self) -> FriendView {
        FriendView { id: self.id as int, name: self.name@, email: self.email@, dob: self.dob }
    }
}

/// A friend to be added: the list gives it its id.
pub struct NewFriend {
    pub name: String,
    pub email: String,
    pub dob: CalendarDate,
}

/// What an interactive prompt asks for.
#[derive(Clone, Copy, Debug, PartialEq, Eq, Structural)]
pub enum InputTypes {
    Text,
    Date,
    Num,
    Email,
}

/// The list of friends.
pub struct Friends {
    pub friends: Vec<Friend>,
}

impl Friends {
    /// No two friends share an id.
    pub open spec fn wf(&self) -> bool {
        forall|a: int, b: int| 0 <= a < b < self@.len() ==> (#[trigger] self@[a]).id != (#[trigger] self@[b]).id
    }
}

impl View for Friends {
    type V = Seq<FriendView>;

    open spec fn view(&self) -> Seq<FriendView> {
        self.friends@.map_values(|f: Friend| f@)
    }
}

/// Whether `f` was born on the day of the year of `today`.
pub open spec fn birthday_on(f: FriendView, today: CalendarDate) -> bool {
    f.dob.month == today.month && f.dob.day == today.day
}

/// The friends of `s` whose birthday is `today`, in order.
pub open spec fn birthdays(s: Seq<FriendView>, today: CalendarDate) -> Seq<FriendView> {
    s.filter(|f: FriendView| birthday_on(f, today))
}

/// The largest id in `s`, or 0.
pub open spec fn max_id(s: Seq<FriendView>) -> int
    decreases s.len(),
{
    if s.len() == 0 {
        0
    } else if s.last().id > max_id(s.drop_last()) {
        s.last().id
    } else {
        max_id(s.drop_last())
    }
}

/// The subject of the greeting mailed to a friend named `name`.
pub open spec fn birthday_subject_of(name: Seq<char>) -> Seq<char> {
    "Happy Birthday "@ + name + "!"@
}

proof fn lemma_birthdays_step(s: Seq<FriendView>, today: CalendarDate, i: int)
    requires
        0 <= i < s.len(),
    ensures
        birthdays(s.subrange(0, i + 1), today) == if birthday_on(s[i], today) {
            birthdays(s.subrange(0, i), today).push(s[i])
        } else {
            birthdays(s.subrange(0, i), today)
        },
{
    reveal(Seq::filter);
    assert(s.subrange(0, i + 1).drop_last() =~= s.subrange(0, i));
}

proof fn lemma_max_id_step(s: Seq<FriendView>, i: int)
    requires
        0 <= i < s.len(),
    ensures
        max_id(s.subrange(0, i + 1)) == if s[i].id > max_id(s.subrange(0, i)) {
            s[i].id
        } else {
            max_id(s.subrange(0, i))
        },
{
    assert(s.subrange(0, i + 1).drop_last() =~= s.subrange(0, i));
}

proof fn lemma_max_id_bounds(s: Seq<FriendView>)
    ensures
        forall|j: int| 0 <= j < s.len() ==> (#[trigger] s[j]).id <= max_id(s),
    decreases s.len(),
{
    if s.len() > 0 {
        lemma_max_id_bounds(s.drop_last());
        assert forall|j: int| 0 <= j < s.len() implies (#[trigger] s[j]).id <= max_id(s) by {
            if j < s.len() - 1 {
                assert(s[j] == s.drop_last()[j]);
            }
        }
    }
}

impl Friend {
    /// A copy of this friend.
    pub fn duplicate(&self) -> (r: Friend)
        ensures
            r@ == self@,
    {
        Friend { id: self.id, name: self.name.clone(), email: self.email.clone(), dob: self.dob }
    }

    /// Whether this friend was born on the day of the year of `today`.
    pub fn is_birthday_on(&self, today: CalendarDate) -> (r: bool)
        ensures
            r == birthday_on(self@, today),
    {
        self.dob.month == today.month && self.dob.day == today.day
    }

    /// The subject of the birthday greeting for this friend.
    pub fn birthday_subject(&self) -> (r: String)
        ensures
            r@ == birthday_subject_of(self@.name),
    {
        String::from_str("Happy Birthday ").concat(self.name.as_str()).concat("!")
    }

    /// The first friend of the list with the id `id`.
    pub fn get_friend(friends: &Friends, id: i32) -> (r: Result<Friend, FriendError>)
        ensures
            r matches Ok(f) ==> exists|i: int|
                0 <= i < friends@.len() && f@ == friends@[i] && friends@[i].id == id && forall|j: int|
                    0 <= j < i ==> (#[trigger] friends@[j]).id != id,
            r matches Err(e) ==> e == FriendError::FriendNotFound && forall|j: int|
                0 <= j < friends@.len() ==> (#[trigger] friends@[j]).id != id,
            (exists|j: int| 0 <= j < friends@.len() && (#[trigger] friends@[j]).id == id) ==> r is Ok,
    {
        let mut i: usize = 0;
        while i < friends.friends.len()
            invariant
                i <= friends@.len(),
                forall|j: int| 0 <= j < i ==> (#[trigger] friends@[j]).id != id,
            decreases friends@.len() - i,
        {
            if friends.friends[i].id == id {
                assert(friends@[i as int] == friends.friends@[i as int]@);
                return Ok(friends.friends[i].duplicate());
            }
            i = i + 1;
        }
        Err(FriendError::FriendNotFound)
    }

    /// Takes the friend with this friend's id off the list and returns it;
    /// ids being unique, no friend with that id remains.
    pub fn remove_friend(&self, friends: &mut Friends) -> (r: Result<Friend, FriendError>)
        requires
            old(friends).wf(),
        ensures
            final(friends).wf(),
            r is Ok <==> exists|j: int| 0 <= j < old(friends)@.len() && (#[trigger] old(friends)@[j]).id == self.id,
            r matches Ok(f) ==> exists|i: int|
                0 <= i < old(friends)@.len() && f@ == old(friends)@[i] && f@.id == self.id && final(friends)@
                    == old(friends)@.remove(i),
            forall|j: int| 0 <= j < final(friends)@.len() ==> (#[trigger] final(friends)@[j]).id != self.id,
            r is Err ==> r == Err::<Friend, FriendError>(FriendError::FriendNotFound) && final(friends)@
                == old(friends)@,
    {
        let mut i: usize = 0;
        while i < friends.friends.len()
            invariant
                friends@ == old(friends)@,
                old(friends).wf(),
                i <= friends@.len(),
                forall|j: int| 0 <= j < i ==> (#[trigger] friends@[j]).id != self.id,
            decreases friends@.len() - i,
        {
            if friends.friends[i].id == self.id {
                let ghost before = friends.friends@;
                let ghost old_view = friends@;
                let removed = friends.friends.remove(i);
                assert(friends@ =~= old_view.remove(i as int)) by {
                    assert(friends.friends@ == before.remove(i as int));
                };
                assert(removed@ == old_view[i as int]);
                assert forall|j: int| 0 <= j < friends@.len() implies (#[trigger] friends@[j]).id != self.id by {
                    if j < i {
                        assert(friends@[j] == old_view[j]);
                    } else {
                        assert(friends@[j] == old_view[j + 1]);
                    }
                }
                assert forall|a: int, b: int|
                    0 <= a < b < friends@.len() implies (#[trigger] friends@[a]).id != (#[trigger] friends@[b]).id by {
                    let oa = if a < i { a } else { a + 1 };
                    let ob = if b < i { b } else { b + 1 };
                    assert(friends@[a] == old_view[oa]);
                    assert(friends@[b] == old_view[ob]);
                }
                return Ok(removed);
            }
            i = i + 1;
        }
        Err(FriendError::FriendNotFound)
    }
}

impl NewFriend {
    /// Adds this friend with the next id, unless a friend with the same
    /// address is listed already.
    pub fn add(&self, friends: &mut Friends) -> (r: Result<Friend, FriendError>)
        ensures
            old(friends).wf() ==> final(friends).wf(),
            (exists|j: int| 0 <= j < old(friends)@.len() && (#[trigger] old(friends)@[j]).email == self.email@)
                ==> r == Err::<Friend, FriendError>(FriendError::FriendAlreadyExist) && final(friends)@ == old(
                friends,
            )@,
            (forall|j: int| 0 <= j < old(friends)@.len() ==> (#[trigger] old(friends)@[j]).email != self.email@)
                && max_id(old(friends)@) < i32::MAX ==> (r matches Ok(f) && f@ == (FriendView {
                id: max_id(old(friends)@) + 1,
                name: self.name@,
                email: self.email@,
                dob: self.dob,
            }) && final(friends)@ == old(friends)@.push(f@)),
            (forall|j: int| 0 <= j < old(friends)@.len() ==> (#[trigger] old(friends)@[j]).email != self.email@)
                && max_id(old(friends)@) >= i32::MAX ==> r == Err::<Friend, FriendError>(FriendError::Storage)
                && final(friends)@ == old(friends)@,
    {
        let n = friends.friends.len();
        let mut top: i32 = 0;
        let mut i: usize = 0;
        while i < n
            invariant
                n == friends@.len(),
                i <= n,
                top == max_id(friends@.subrange(0, i as int)),
                forall|j: int| 0 <= j < i ==> (#[trigger] friends@[j]).email != self.email@,
            decreases n - i,
        {
            proof {
                lemma_max_id_step(friends@, i as int);
            }
            if str_eq(friends.friends[i].email.as_str(), self.email.as_str()) {
                return Err(FriendError::FriendAlreadyExist);
            }
            if friends.friends[i].id > top {
                top = friends.friends[i].id;
            }
            i = i + 1;
        }
        assert(friends@.subrange(0, n as int) =~= friends@);
        if top == i32::MAX {
            return Err(FriendError::Storage);
        }
        let friend = Friend { id: top + 1, name: self.name.clone(), email: self.email.clone(), dob: self.dob };
        let ghost before = friends@;
        proof {
            lemma_max_id_bounds(before);
        }
        friends.friends.push(friend.duplicate());
        assert(friends@ =~= before.push(friend@));
        assert(forall|j: int| 0 <= j < before.len() ==> #[trigger] friends@[j] == before[j]);
        Ok(friend)
    }
}

impl Friends {
    /// An empty list.
    pub fn new() -> (r: Friends)
        ensures
            r.wf(),
            r@ == Seq::<FriendView>::empty(),
    {
        Friends { friends: Vec::new() }
    }

    /// The friends whose birthday is `today`, in list order.
    pub fn get_list_of_birthday_friends(&self, today: CalendarDate) -> (r: Vec<Friend>)
        ensures
            r@.map_values(|f: Friend| f@) == birthdays(self@, today),
    {
        let n = self.friends.len();
        let mut out: Vec<Friend> = Vec::new();
        let mut i: usize = 0;
        while i < n
            invariant
                n == self@.len(),
                i <= n,
                out@.map_values(|f: Friend| f@) == birthdays(self@.subrange(0, i as int), today),
            decreases n - i,
        {
            proof {
                lemma_birthdays_step(self@, today, i as int);
            }
            if self.friends[i].is_birthday_on(today) {
                let ghost before = out@;
                out.push(self.friends[i].duplicate());
                assert(out@.map_values(|f: Friend| f@) =~= before.map_values(|f: Friend| f@).push(
                    self@[i as int],
                ));
            }
            i = i + 1;
        }
        assert(self@.subrange(0, n as int) =~= self@);
        out
    }
}

/// A choice of the interactive menu.
#[derive(Clone, Copy, Debug, PartialEq, Eq, Structural)]
pub enum BirthdayWisher {
    AddFriend,
    RemoveFriend,
    ShowFriends,
    ClearScreen,
    Exit,
}

/// The text shown for a menu choice.
pub open spec fn label_of(c: BirthdayWisher) -> Seq<char> {
    match c {
        BirthdayWisher::AddFriend => "Add Friend"@,
        BirthdayWisher::RemoveFriend => "Remove Friend"@,
        BirthdayWisher::ShowFriends => "Show Friends"@,
        BirthdayWisher::ClearScreen => "Clear Screen"@,
        BirthdayWisher::Exit => "Exit"@,
    }
}

impl BirthdayWisher {
    /// The menu's choices, in the order shown.
    pub fn options() -> (r: Vec<BirthdayWisher>)
        ensures
            r@ == seq![
                BirthdayWisher::AddFriend,
                BirthdayWisher::RemoveFriend,
                BirthdayWisher::ShowFriends,
                BirthdayWisher::ClearScreen,
                BirthdayWisher::Exit,
            ],
    {
        let r = vec![
            BirthdayWisher::AddFriend,
            BirthdayWisher::RemoveFriend,
            BirthdayWisher::ShowFriends,
            BirthdayWisher::ClearScreen,
            BirthdayWisher::Exit,
        ];
        assert(r@ =~= seq![
            BirthdayWisher::AddFriend,
            BirthdayWisher::RemoveFriend,
            BirthdayWisher::ShowFriends,
            BirthdayWisher::ClearScreen,
            BirthdayWisher::Exit,
        ]);
        r
    }

    /// The text shown for this choice.
    pub fn label(&self) -> (r: String)
        ensures
            r@ == label_of(*self),
    {
        match self {
            BirthdayWisher::AddFriend => String::from_str("Add Friend"),
            BirthdayWisher::RemoveFriend => String::from_str("Remove Friend"),
            BirthdayWisher::ShowFriends => String::from_str("Show Friends"),
            BirthdayWisher::ClearScreen => String::from_str("Clear Screen"),
            BirthdayWisher::Exit => String::from_str("Exit"),
        }
    }
}

} // verus!
