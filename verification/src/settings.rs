//! User aliases: several email addresses counted as one named contributor.
use vstd::prelude::*;

use crate::text::{
    ascii_lower, ascii_upper, is_ascii_text, lemma_ascii_lower_idempotent, lemma_ascii_lower_of_upper,
    lowercase, string_of_str, string_views, to_lowercase,
};

verus! {

broadcast use vstd::string::group_string_axioms;

/// The configured users, each a display name with its email addresses (lowercased), in the
/// order in which they were read; a later entry overrides an earlier one for the same name
/// or email.
#[derive(Debug, Clone)]
pub struct Settings {
    users: Vec<(String, Vec<String>)>,
}

pub struct UserView {
    pub name: Seq<char>,
    pub emails: Seq<Seq<char>>,
}

impl View for Settings {
    type V = Seq<UserView>;

    closed spec fn view(&self) -> Seq<UserView> {
        self.users@.map_values(|u: (String, Vec<String>)| UserView { name: u.0@, emails: string_views(u.1@) })
    }
}

/// Index of the last user that lists `email`.
pub open spec fn last_user_with_email(users: Seq<UserView>, email: Seq<char>) -> Option<int>
    decreases users.len(),
{
    if users.len() == 0 {
        None
    } else if users.last().emails.contains(email) {
        Some(users.len() - 1)
    } else {
        last_user_with_email(users.drop_last(), email)
    }
}

/// Index of the last user named `name`.
pub open spec fn last_user_named(users: Seq<UserView>, name: Seq<char>) -> Option<int>
    decreases users.len(),
{
    if users.len() == 0 {
        None
    } else if users.last().name == name {
        Some(users.len() - 1)
    } else {
        last_user_named(users.drop_last(), name)
    }
}

/// The display key of an email: the name of the (last) user that lists it, else the email
/// lowercased.
pub open spec fn spec_canonical_key(users: Seq<UserView>, email: Seq<char>) -> Seq<char> {
    key_of_lowered(users, lowercase(email))
}

/// The display key of an already lowercased email.
pub open spec fn key_of_lowered(users: Seq<UserView>, lowered: Seq<char>) -> Seq<char> {
    match last_user_with_email(users, lowered) {
        Some(i) => users[i].name,
        None => lowered,
    }
}

/// The emails of a key: those of the (last) user with that name, else the key lowercased.
pub open spec fn spec_emails_for_key(users: Seq<UserView>, key: Seq<char>) -> Seq<Seq<char>> {
    match last_user_named(users, key) {
        Some(i) => users[i].emails,
        None => seq![lowercase(key)],
    }
}

/// Whether any user lists an email.
pub open spec fn spec_has_aliases(users: Seq<UserView>) -> bool {
    exists|i: int| 0 <= i < users.len() && users[i].emails.len() > 0
}

proof fn lemma_last_user_with_email(users: Seq<UserView>, email: Seq<char>)
    ensures
        last_user_with_email(users, email) matches Some(i) ==> 0 <= i < users.len(),
    decreases users.len(),
{
    if users.len() > 0 {
        lemma_last_user_with_email(users.drop_last(), email);
    }
}

proof fn lemma_last_user_named(users: Seq<UserView>, name: Seq<char>)
    ensures
        last_user_named(users, name) matches Some(i) ==> 0 <= i < users.len() && users[i].name == name,
    decreases users.len(),
{
    if users.len() > 0 {
        lemma_last_user_named(users.drop_last(), name);
    }
}

impl Default for Settings {
    fn default() -> (r: Self)
        ensures
            r@.len() == 0,
    {
        Settings { users: Vec::new() }
    }
}

/// The strings lowercased.
fn lowercase_all(v: &Vec<String>) -> (r: Vec<String>)
    ensures
        string_views(r@) == string_views(v@).map_values(|e: Seq<char>| lowercase(e)),
        forall|j: int| 0 <= j < v.len() && is_ascii_text(#[trigger] v@[j]@) ==> r@[j]@ == ascii_lower(v@[j]@),
{
    let mut r: Vec<String> = Vec::new();
    let mut i: usize = 0;
    while i < v.len()
        invariant
            i <= v.len(),
            r.len() == i,
            forall|j: int| 0 <= j < i ==> #[trigger] r@[j]@ == lowercase(v@[j]@),
            forall|j: int| 0 <= j < i && is_ascii_text(#[trigger] v@[j]@) ==> r@[j]@ == ascii_lower(v@[j]@),
        decreases v.len() - i,
    {
        r.push(to_lowercase(v[i].as_str()));
        i = i + 1;
    }
    assert(string_views(r@) =~= string_views(v@).map_values(|e: Seq<char>| lowercase(e)));
    r
}

/// A copy of a list of strings.
fn copy_strings(v: &Vec<String>) -> (r: Vec<String>)
    ensures
        string_views(r@) == string_views(v@),
{
    let mut r: Vec<String> = Vec::new();
    let mut i: usize = 0;
    while i < v.len()
        invariant
            i <= v.len(),
            r.len() == i,
            forall|j: int| 0 <= j < i ==> #[trigger] r@[j]@ == v@[j]@,
        decreases v.len() - i,
    {
        r.push(v[i].clone());
        i = i + 1;
    }
    assert(string_views(r@) =~= string_views(v@));
    r
}

impl Settings {
    /// Settings from a list of users (display name and email addresses); the emails are
    /// lowercased.
    pub fn from_users(users: Vec<(String, Vec<String>)>) -> (r: Self)
        ensures
            r@.len() == users.len(),
            forall|i: int| 0 <= i < users.len() ==> (#[trigger] r@[i]).name == users@[i].0@ && r@[i].emails
                == string_views(users@[i].1@).map_values(|e: Seq<char>| lowercase(e)),
            forall|i: int, j: int|
                0 <= i < users.len() && 0 <= j < users@[i].1.len() && is_ascii_text(#[trigger] users@[i].1@[j]@)
                    ==> r@[i].emails[j] == ascii_lower(users@[i].1@[j]@),
    {
        let mut out: Vec<(String, Vec<String>)> = Vec::new();
        let mut i: usize = 0;
        while i < users.len()
            invariant
                i <= users.len(),
                out.len() == i,
                forall|j: int| 0 <= j < i ==> (#[trigger] out@[j]).0@ == users@[j].0@ && string_views(out@[j].1@)
                    == string_views(users@[j].1@).map_values(|e: Seq<char>| lowercase(e)),
                forall|j: int, k: int|
                    0 <= j < i && 0 <= k < users@[j].1.len() && is_ascii_text(#[trigger] users@[j].1@[k]@)
                        ==> out@[j].1@[k]@ == ascii_lower(users@[j].1@[k]@),
            decreases users.len() - i,
        {
            let lowered = lowercase_all(&users[i].1);
            out.push((users[i].0.clone(), lowered));
            i = i + 1;
        }
        let r = Settings { users: out };
        assert forall|i: int, j: int|
            0 <= i < users.len() && 0 <= j < users@[i].1.len() && is_ascii_text(#[trigger] users@[i].1@[j]@)
                implies r@[i].emails[j] == ascii_lower(users@[i].1@[j]@) by {
            assert(r@[i].emails == string_views(out@[i].1@));
            assert(string_views(out@[i].1@)[j] == out@[i].1@[j]@);
        }
        r
    }

    /// Returns the canonical display key for a given email: the name of the user that lists
    /// it, otherwise the email lowercased.
    pub fn canonical_key(&self, email: &str) -> (r: String)
        ensures
            r@ == spec_canonical_key(self@, email@),
            is_ascii_text(email@) ==> r@ == key_of_lowered(self@, ascii_lower(email@)),
    {
        let lower = to_lowercase(email);
        let ghost us = self@;
        let mut i: usize = self.users.len();
        assert(us.take(i as int) =~= us);
        while i > 0
            invariant
                i <= self.users.len(),
                us == self@,
                lower@ == lowercase(email@),
                is_ascii_text(email@) ==> lower@ == ascii_lower(email@),
                last_user_with_email(us, lower@) == last_user_with_email(us.take(i as int), lower@),
            decreases i,
        {
            let k = i - 1;
            assert(us.take(i as int).drop_last() =~= us.take(k as int));
            assert(us.take(i as int).last() == us[k as int]);
            assert(us[k as int].emails == string_views(self.users@[k as int].1@));
            if crate::text::contains_string(&self.users[k].1, &lower) {
                assert(last_user_with_email(us.take(i as int), lower@) == Some(k as int));
                assert(us[k as int].name == self.users@[k as int].0@);
                let r = self.users[k].0.clone();
                assert(r@ == us[k as int].name);
                return r;
            }
            i = k;
        }
        assert(us.take(0) =~= Seq::<UserView>::empty());
        lower
    }

    /// Returns all lowercased emails associated with a canonical key: those of the user with
    /// that name, otherwise the key itself lowercased.
    pub fn emails_for_key(&self, key: &str) -> (r: Vec<String>)
        ensures
            string_views(r@) == spec_emails_for_key(self@, key@),
    {
        let ghost us = self@;
        let k0 = string_of_str(key);
        let mut i: usize = self.users.len();
        assert(us.take(i as int) =~= us);
        while i > 0
            invariant
                i <= self.users.len(),
                us == self@,
                k0@ == key@,
                last_user_named(us, key@) == last_user_named(us.take(i as int), key@),
            decreases i,
        {
            let k = i - 1;
            assert(us.take(i as int).drop_last() =~= us.take(k as int));
            assert(us.take(i as int).last() == us[k as int]);
            if self.users[k].0 == k0 {
                return copy_strings(&self.users[k].1);
            }
            i = k;
        }
        assert(us.take(0) =~= Seq::<UserView>::empty());
        let mut r: Vec<String> = Vec::new();
        r.push(to_lowercase(key));
        assert(string_views(r@) =~= seq![lowercase(key@)]);
        r
    }

    /// Whether any email is mapped to a user.
    pub fn has_aliases(&self) -> (b: bool)
        ensures
            b == spec_has_aliases(self@),
    {
        let mut i: usize = 0;
        while i < self.users.len()
            invariant
                i <= self.users.len(),
                forall|j: int| 0 <= j < i ==> (#[trigger] self@[j]).emails.len() == 0,
            decreases self.users.len() - i,
        {
            if self.users[i].1.len() > 0 {
                assert(self@[i as int].emails.len() > 0);
                return true;
            }
            assert(self@[i as int].emails.len() == 0);
            i = i + 1;
        }
        false
    }
}


/// Email matching ignores ASCII case: two ASCII emails that differ only in the case of
/// their letters (an email and its capitals, say) have the same display key.
pub proof fn lemma_canonical_key_ignores_ascii_case(users: Seq<UserView>, e: Seq<char>)
    requires
        is_ascii_text(e),
    ensures
        is_ascii_text(ascii_upper(e)),
        key_of_lowered(users, ascii_lower(ascii_upper(e))) == key_of_lowered(users, ascii_lower(e)),
{
    lemma_ascii_lower_of_upper(e);
}

/// An email listed (lowercased) under a user, and under no later user, has that user's name
/// as its display key; an email listed under nobody is its own key.
pub proof fn lemma_listed_email_key(users: Seq<UserView>, i: int, e: Seq<char>)
    requires
        0 <= i < users.len(),
        users[i].emails.contains(e),
        forall|j: int| i < j < users.len() ==> !(#[trigger] users[j]).emails.contains(e),
    ensures
        key_of_lowered(users, e) == users[i].name,
    decreases users.len(),
{
    if i < users.len() - 1 {
        assert(!users.last().emails.contains(e));
        lemma_listed_email_key(users.drop_last(), i, e);
        assert(users.drop_last()[i] == users[i]);
        assert(key_of_lowered(users, e) == key_of_lowered(users.drop_last(), e)) by {
            lemma_last_user_with_email(users.drop_last(), e);
            match last_user_with_email(users.drop_last(), e) {
                Some(k) => assert(users[k] == users.drop_last()[k]),
                None => {},
            }
        }
    }
}

/// An email that no user lists is its own (lowercased) key.
pub proof fn lemma_unlisted_email_key(users: Seq<UserView>, e: Seq<char>)
    requires
        forall|j: int| 0 <= j < users.len() ==> !(#[trigger] users[j]).emails.contains(e),
    ensures
        last_user_with_email(users, e) is None,
        key_of_lowered(users, e) == e,
    decreases users.len(),
{
    if users.len() > 0 {
        assert forall|j: int| 0 <= j < users.drop_last().len() implies !(#[trigger] users.drop_last()[j]).emails.contains(e) by {
            assert(users.drop_last()[j] == users[j]);
        }
        lemma_unlisted_email_key(users.drop_last(), e);
        assert(!users[users.len() - 1].emails.contains(e));
    }
}

/// The stored emails of ASCII addresses are already lowercase: lowering them again
/// changes nothing, so looking them up finds their user.
pub proof fn lemma_stored_ascii_email_is_lowered(e: Seq<char>)
    requires
        is_ascii_text(e),
    ensures
        is_ascii_text(ascii_lower(e)),
        ascii_lower(ascii_lower(e)) == ascii_lower(e),
{
    lemma_ascii_lower_idempotent(e);
}


/// No email is listed under two users of different names.
pub open spec fn emails_unambiguous(users: Seq<UserView>) -> bool {
    forall|j: int, k: int, e: Seq<char>|
        0 <= j < users.len() && 0 <= k < users.len() && #[trigger] users[j].emails.contains(e)
            && #[trigger] users[k].emails.contains(e) ==> users[j].name == users[k].name
}

/// The emails of a name and the key of an email agree: when no email is listed under two
/// names, every email that `emails_for_key` gives for a user's name has that name as its
/// key. (`canonical_key` lowers a stored ASCII email once more before the lookup, which
/// changes nothing: see `lemma_stored_email_lookup`.)
pub proof fn lemma_emails_of_name_have_that_key(users: Seq<UserView>, name: Seq<char>, e: Seq<char>)
    requires
        emails_unambiguous(users),
        last_user_named(users, name) is Some,
        spec_emails_for_key(users, name).contains(e),
    ensures
        key_of_lowered(users, e) == name,
{
    lemma_last_user_named(users, name);
    let i = last_user_named(users, name)->0;
    lemma_key_of_some_lister(users, i, e);
}

/// The round trip between names and emails. When no email is listed under two names, each
/// (lowercased ASCII) email that `emails_for_key` gives for a user's name is found again
/// under that name by `canonical_key`, which looks up an ASCII email lowercased (see its
/// contract), whatever the case of its letters.
pub proof fn lemma_key_round_trip(users: Seq<UserView>, name: Seq<char>, e: Seq<char>)
    requires
        emails_unambiguous(users),
        last_user_named(users, name) is Some,
        spec_emails_for_key(users, name).contains(e),
        is_ascii_text(e),
        ascii_lower(e) == e,
    ensures
        key_of_lowered(users, ascii_lower(e)) == name,
        is_ascii_text(ascii_upper(e)),
        key_of_lowered(users, ascii_lower(ascii_upper(e))) == name,
{
    lemma_emails_of_name_have_that_key(users, name, e);
    lemma_canonical_key_ignores_ascii_case(users, e);
}

/// When some user lists `e` and all users that list it share a name, that name is the key.
proof fn lemma_key_of_some_lister(users: Seq<UserView>, i: int, e: Seq<char>)
    requires
        emails_unambiguous(users),
        0 <= i < users.len(),
        users[i].emails.contains(e),
    ensures
        key_of_lowered(users, e) == users[i].name,
{
    lemma_last_user_with_email_lists(users, e);
    match last_user_with_email(users, e) {
        Some(k) => {
            assert(users[k].emails.contains(e));
            assert(users[i].name == users[k].name);
        },
        None => {
            assert(false);
        },
    }
}

proof fn lemma_last_user_with_email_lists(users: Seq<UserView>, e: Seq<char>)
    ensures
        last_user_with_email(users, e) matches Some(k) ==> 0 <= k < users.len() && users[k].emails.contains(e),
        last_user_with_email(users, e) is None ==> forall|j: int| 0 <= j < users.len() ==> !(#[trigger] users[j]).emails.contains(e),
    decreases users.len(),
{
    if users.len() > 0 {
        lemma_last_user_with_email_lists(users.drop_last(), e);
        assert forall|j: int| 0 <= j < users.len() - 1 implies users.drop_last()[j] == users[j] by {}
        match last_user_with_email(users.drop_last(), e) {
            Some(k) => assert(users.drop_last()[k] == users[k]),
            None => {},
        }
    }
}

/// A stored ASCII email keeps its key when it is lowered again for the lookup.
pub proof fn lemma_stored_email_lookup(users: Seq<UserView>, e: Seq<char>)
    requires
        is_ascii_text(e),
        ascii_lower(e) == e,
    ensures
        key_of_lowered(users, ascii_lower(e)) == key_of_lowered(users, e),
{
}

} // verus!

