//! The referral map pushed to every listener: for each invite code in use, the
//! users who signed up with it.

use vstd::prelude::*;
use vstd::multiset::Multiset;
use crate::models::User;

verus! {

/// `code` is the user's own invite code or the code the user signed up with.
pub open spec fn uses_code(u: User, code: Seq<char>) -> bool {
    u.personal_invite_code@ == code || u.referral_code@ == code
}

/// `code` is some user's own invite code or the code some user signed up with.
pub open spec fn is_code(users: Seq<User>, code: Seq<char>) -> bool {
    exists|j: int| 0 <= j < users.len() && #[trigger] uses_code(users[j], code)
}

/// The usernames, in order, of the users who signed up with `code`.
pub open spec fn referred_by(users: Seq<User>, code: Seq<char>) -> Seq<Seq<char>> {
    users.filter_map(|u: User| if u.referral_code@ == code { Some(u.username@) } else { None })
}

/// The referral map of a list of users: every invite code and every referral
/// code that occurs is a key, and it maps to the usernames, in list order, of
/// the users who signed up with that code.
pub open spec fn referral_map(users: Seq<User>) -> Map<Seq<char>, Seq<Seq<char>>> {
    Map::new(|code: Seq<char>| is_code(users, code), |code: Seq<char>| referred_by(users, code))
}

/// A map from invite codes to the usernames referred by each, held as a list
/// of keys and a list of name lists of the same length; no key occurs twice.
pub struct ReferralMap {
    codes: Vec<String>,
    referred: Vec<Vec<String>>,
}

impl ReferralMap {
    /// The keys and the lists stay aligned and no key occurs twice.
    pub closed spec fn wf(&self) -> bool {
        &&& self.codes@.len() == self.referred@.len()
        &&& forall|a: int, b: int|
            0 <= a < b < self.codes@.len() ==> #[trigger] self.codes@[a]@ != #[trigger] self.codes@[b]@
    }

    spec fn has_key(&self, code: Seq<char>) -> bool {
        exists|a: int| 0 <= a < self.codes@.len() && #[trigger] self.codes@[a]@ == code
    }

    spec fn index_of(&self, code: Seq<char>) -> int {
        choose|a: int| 0 <= a < self.codes@.len() && #[trigger] self.codes@[a]@ == code
    }

    /// The number of keys.
    pub closed spec fn spec_len(&self) -> nat {
        self.codes@.len()
    }

    /// The key at position `i`.
    pub closed spec fn key_at(&self, i: int) -> Seq<char> {
        self.codes@[i]@
    }

    /// The usernames stored under the key at position `i`.
    pub closed spec fn names_at(&self, i: int) -> Seq<Seq<char>> {
        self.referred@[i].deep_view()
    }
}

impl View for ReferralMap {
    type V = Map<Seq<char>, Seq<Seq<char>>>;

    closed spec fn view(&self) -> Map<Seq<char>, Seq<Seq<char>>> {
        Map::new(|code: Seq<char>| self.has_key(code), |code: Seq<char>| self.referred@[self.index_of(code)].deep_view())
    }
}

fn find_code(codes: &Vec<String>, code: &String) -> (r: Option<usize>)
    ensures
        match r {
            Some(a) => a < codes@.len() && codes@[a as int]@ == code@,
            None => forall|a: int| 0 <= a < codes@.len() ==> #[trigger] codes@[a]@ != code@,
        },
{
    let mut i: usize = 0;
    while i < codes.len()
        invariant
            i <= codes@.len(),
            forall|a: int| 0 <= a < i ==> #[trigger] codes@[a]@ != code@,
        decreases codes@.len() - i,
    {
        if codes[i] == *code {
            return Some(i);
        }
        i = i + 1;
    }
    None
}

proof fn lemma_referred_by_push(users: Seq<User>, u: User, code: Seq<char>)
    ensures
        referred_by(users.push(u), code) == if u.referral_code@ == code {
            referred_by(users, code).push(u.username@)
        } else {
            referred_by(users, code)
        },
{
    assert(users.push(u).drop_last() =~= users);
    assert(users.push(u).last() == u);
    if u.referral_code@ == code {
        assert(referred_by(users, code) + seq![u.username@] =~= referred_by(users, code).push(
            u.username@,
        ));
    }
}

proof fn lemma_is_code_push(users: Seq<User>, u: User, code: Seq<char>)
    ensures
        is_code(users.push(u), code) <==> (is_code(users, code) || uses_code(u, code)),
{
    let s = users.push(u);
    assert forall|j: int| 0 <= j < users.len() implies #[trigger] s[j] == users[j] by {}
    assert(s[users.len() as int] == u);
    if is_code(s, code) {
        let j = choose|j: int| 0 <= j < s.len() && #[trigger] uses_code(s[j], code);
        if j < users.len() {
            assert(uses_code(users[j], code));
        }
    }
    if is_code(users, code) {
        let j = choose|j: int| 0 <= j < users.len() && #[trigger] uses_code(users[j], code);
        assert(uses_code(s[j], code));
    }
    if uses_code(u, code) {
        assert(uses_code(s[users.len() as int], code));
    }
}

proof fn lemma_referred_by_unused(users: Seq<User>, code: Seq<char>)
    requires
        !is_code(users, code),
    ensures
        referred_by(users, code) == Seq::<Seq<char>>::empty(),
    decreases users.len(),
{
    if users.len() > 0 {
        let rest = users.drop_last();
        let u = users.last();
        assert(rest.push(u) =~= users);
        lemma_is_code_push(rest, u, code);
        lemma_referred_by_unused(rest, code);
        lemma_referred_by_push(rest, u, code);
    } else {
        assert(referred_by(users, code) =~= Seq::<Seq<char>>::empty());
    }
}

/// The users who signed up with `code`, in list order.
pub open spec fn referrers(users: Seq<User>, code: Seq<char>) -> Seq<User> {
    users.filter(|u: User| u.referral_code@ == code)
}

/// The names of `users`, in list order.
pub open spec fn usernames(users: Seq<User>) -> Seq<Seq<char>> {
    users.map_values(|u: User| u.username@)
}

proof fn lemma_referred_by_is_referrers(users: Seq<User>, code: Seq<char>)
    ensures
        referred_by(users, code) == usernames(referrers(users, code)),
    decreases users.len(),
{
    if users.len() == 0 {
        assert(referred_by(users, code) =~= Seq::<Seq<char>>::empty());
        assert(usernames(referrers(users, code)) =~= Seq::<Seq<char>>::empty());
    } else {
        let rest = users.drop_last();
        let last = users.last();
        assert(rest.push(last) =~= users);
        lemma_referred_by_is_referrers(rest, code);
        lemma_referred_by_push(rest, last, code);
        assert(users.drop_last() == rest);
        reveal_with_fuel(Seq::filter, 1);
        if last.referral_code@ == code {
            assert(referrers(users, code) == referrers(rest, code).push(last));
            assert(usernames(referrers(rest, code).push(last)) =~= usernames(referrers(rest, code)).push(
                last.username@,
            ));
        } else {
            assert(referrers(users, code) == referrers(rest, code));
        }
    }
}

/// What the referral map holds, said without its definition: a code is a key
/// exactly when some user owns it or signed up with it; every user's own code
/// and referral code are keys; and under each key stand the names of the users
/// who signed up with that code, each once per such user, in list order.
pub proof fn lemma_referral_map_meaning(users: Seq<User>)
    ensures
        forall|code: Seq<char>|
            #[trigger] referral_map(users).contains_key(code) <==> exists|j: int|
                #![trigger users[j]]
                0 <= j < users.len() && (users[j].personal_invite_code@ == code
                    || users[j].referral_code@ == code),
        forall|j: int|
            0 <= j < users.len() ==> #[trigger] referral_map(users).contains_key(
                users[j].personal_invite_code@,
            ) && referral_map(users).contains_key(users[j].referral_code@),
        forall|code: Seq<char>|
            #[trigger] referral_map(users).contains_key(code) ==> referral_map(users)[code]
                == usernames(referrers(users, code)),
{
    assert forall|code: Seq<char>| #[trigger] referral_map(users).contains_key(code) <==> exists|j: int|
        #![trigger users[j]]
        0 <= j < users.len() && (users[j].personal_invite_code@ == code
            || users[j].referral_code@ == code) by {
        if is_code(users, code) {
            let j = choose|j: int| 0 <= j < users.len() && #[trigger] uses_code(users[j], code);
            assert(users[j].personal_invite_code@ == code || users[j].referral_code@ == code);
        }
        if exists|j: int|
            #![trigger users[j]]
            0 <= j < users.len() && (users[j].personal_invite_code@ == code
                || users[j].referral_code@ == code) {
            let j = choose|j: int|
                #![trigger users[j]]
                0 <= j < users.len() && (users[j].personal_invite_code@ == code
                    || users[j].referral_code@ == code);
            assert(uses_code(users[j], code));
        }
    }
    assert forall|j: int| 0 <= j < users.len() implies #[trigger] referral_map(users).contains_key(
        users[j].personal_invite_code@,
    ) && referral_map(users).contains_key(users[j].referral_code@) by {
        assert(uses_code(users[j], users[j].personal_invite_code@));
        assert(uses_code(users[j], users[j].referral_code@));
    }
    assert forall|code: Seq<char>| #[trigger] referral_map(users).contains_key(code) implies referral_map(
        users,
    )[code] == usernames(referrers(users, code)) by {
        lemma_referred_by_is_referrers(users, code);
    }
}

/// The usernames referred by `code`, counted with multiplicity and without order.
pub open spec fn referred_bag(users: Seq<User>, code: Seq<char>) -> Multiset<Seq<char>> {
    referred_by(users, code).to_multiset()
}

proof fn lemma_referred_bag_push(users: Seq<User>, u: User, code: Seq<char>)
    ensures
        referred_bag(users.push(u), code) == if u.referral_code@ == code {
            referred_bag(users, code).insert(u.username@)
        } else {
            referred_bag(users, code)
        },
{
    broadcast use vstd::seq_lib::group_to_multiset_ensures;

    lemma_referred_by_push(users, u, code);
}

proof fn lemma_referred_bag_remove(users: Seq<User>, i: int, code: Seq<char>)
    requires
        0 <= i < users.len(),
    ensures
        referred_bag(users, code) == if users[i].referral_code@ == code {
            referred_bag(users.remove(i), code).insert(users[i].username@)
        } else {
            referred_bag(users.remove(i), code)
        },
    decreases users.len(),
{
    let rest = users.drop_last();
    let last = users.last();
    assert(rest.push(last) =~= users);
    lemma_referred_bag_push(rest, last, code);
    if i == users.len() - 1 {
        assert(users.remove(i) =~= rest);
    } else {
        assert(users.remove(i) =~= rest.remove(i).push(last));
        assert(rest[i] == users[i]);
        lemma_referred_bag_remove(rest, i, code);
        lemma_referred_bag_push(rest.remove(i), last, code);
        let x = users[i].username@;
        let y = last.username@;
        let base = referred_bag(rest.remove(i), code);
        assert(base.insert(x).insert(y) =~= base.insert(y).insert(x));
    }
}

proof fn lemma_referred_bag_reorder(users: Seq<User>, other: Seq<User>, code: Seq<char>)
    requires
        users.to_multiset() == other.to_multiset(),
    ensures
        referred_bag(users, code) == referred_bag(other, code),
    decreases users.len(),
{
    broadcast use vstd::seq_lib::group_to_multiset_ensures;

    if users.len() == 0 {
        assert(users.to_multiset().len() == 0);
        assert(other.to_multiset().len() == other.len());
        assert(other.len() == 0);
        assert(users =~= Seq::<User>::empty());
        assert(other =~= Seq::<User>::empty());
    } else {
        let rest = users.drop_last();
        let u = users.last();
        assert(rest.push(u) =~= users);
        assert(users.to_multiset().count(u) > 0) by {
            assert(users.contains(u)) by {
                assert(users[users.len() - 1] == u);
            }
        }
        assert(other.contains(u));
        let i = choose|i: int| 0 <= i < other.len() && other[i] == u;
        assert(other.remove(i).to_multiset() =~= rest.to_multiset());
        lemma_referred_bag_reorder(rest, other.remove(i), code);
        lemma_referred_bag_push(rest, u, code);
        lemma_referred_bag_remove(other, i, code);
    }
}

proof fn lemma_is_code_reorder(users: Seq<User>, other: Seq<User>, code: Seq<char>)
    requires
        users.to_multiset() == other.to_multiset(),
        is_code(users, code),
    ensures
        is_code(other, code),
{
    broadcast use vstd::seq_lib::group_to_multiset_ensures;

    let j = choose|j: int| 0 <= j < users.len() && #[trigger] uses_code(users[j], code);
    let x = users[j];
    assert(users.contains(x));
    assert(other.to_multiset().count(x) > 0);
    assert(other.contains(x));
    let k = choose|k: int| 0 <= k < other.len() && other[k] == x;
    assert(uses_code(other[k], code));
}

/// The referral map does not depend on the order of the users: two lists that
/// hold the same users (the same multiset), in any order, give the same keys,
/// and under each key the same usernames up to order.
pub proof fn lemma_referral_map_ignores_order(users: Seq<User>, other: Seq<User>)
    requires
        users.to_multiset() == other.to_multiset(),
    ensures
        referral_map(users).dom() == referral_map(other).dom(),
        forall|code: Seq<char>|
            #[trigger] referral_map(users).contains_key(code) ==> referral_map(users)[code].to_multiset()
                == referral_map(other)[code].to_multiset(),
{
    assert forall|code: Seq<char>| #[trigger] is_code(users, code) == is_code(other, code) by {
        if is_code(users, code) {
            lemma_is_code_reorder(users, other, code);
        }
        if is_code(other, code) {
            lemma_is_code_reorder(other, users, code);
        }
    }
    assert(referral_map(users).dom() =~= referral_map(other).dom());
    assert forall|code: Seq<char>| #[trigger] referral_map(users).contains_key(code) implies referral_map(
        users,
    )[code].to_multiset() == referral_map(other)[code].to_multiset() by {
        lemma_referred_bag_reorder(users, other, code);
    }
}

/// When one more user signs up, the referral map changes only as follows: the
/// new user's own invite code becomes a key (with an empty list if it was not
/// one), the code they signed up with becomes a key, the new username is
/// appended at the end of that code's list, and every other list is unchanged.
pub proof fn lemma_signup_updates_referral_map(users: Seq<User>, u: User)
    ensures
        referral_map(users.push(u)).dom() == referral_map(users).dom().insert(
            u.personal_invite_code@,
        ).insert(u.referral_code@),
        referral_map(users.push(u))[u.referral_code@] == referral_map(users).get(
            u.referral_code@,
        ).unwrap_or(Seq::empty()).push(u.username@),
        referral_map(users.push(u)).contains_key(u.personal_invite_code@),
        u.personal_invite_code@ != u.referral_code@ ==> referral_map(users.push(u))[u.personal_invite_code@]
            == referral_map(users).get(u.personal_invite_code@).unwrap_or(Seq::empty()),
        forall|code: Seq<char>|
            #![trigger referral_map(users).get(code)]
            code != u.personal_invite_code@ && code != u.referral_code@ ==> referral_map(
                users.push(u),
            ).get(code) == referral_map(users).get(code),
{
    assert forall|code: Seq<char>| #[trigger] is_code(users.push(u), code) == (is_code(users, code)
        || uses_code(u, code)) by {
        lemma_is_code_push(users, u, code);
    }
    assert forall|code: Seq<char>|
        #[trigger] referred_by(users.push(u), code) == if u.referral_code@ == code {
            referred_by(users, code).push(u.username@)
        } else {
            referred_by(users, code)
        } by {
        lemma_referred_by_push(users, u, code);
    }
    assert(referral_map(users.push(u)).dom() =~= referral_map(users).dom().insert(
        u.personal_invite_code@,
    ).insert(u.referral_code@));
    if !is_code(users, u.referral_code@) {
        lemma_referred_by_unused(users, u.referral_code@);
    }
    if !is_code(users, u.personal_invite_code@) {
        lemma_referred_by_unused(users, u.personal_invite_code@);
    }
}


impl ReferralMap {
    /// The keys are exactly `keys`, and each key's list is what `users` give it.
    spec fn holds(&self, keys: Set<Seq<char>>, users: Seq<User>) -> bool {
        &&& self.wf()
        &&& forall|a: int| 0 <= a < self.codes@.len() ==> keys.contains(#[trigger] self.codes@[a]@)
        &&& forall|code: Seq<char>| #[trigger] keys.contains(code) ==> self.has_key(code)
        &&& forall|a: int|
            0 <= a < self.codes@.len() ==> #[trigger] self.referred@[a].deep_view() == referred_by(
                users,
                self.codes@[a]@,
            )
    }

    proof fn lemma_view_of_holds(&self, users: Seq<User>)
        requires
            self.holds(Set::new(|code: Seq<char>| is_code(users, code)), users),
        ensures
            self@ == referral_map(users),
    {
        let keys = Set::new(|code: Seq<char>| is_code(users, code));
        assert forall|code: Seq<char>| #[trigger] self.has_key(code) == is_code(users, code) by {
            if self.has_key(code) {
                let a = choose|a: int| 0 <= a < self.codes@.len() && #[trigger] self.codes@[a]@ == code;
                assert(keys.contains(self.codes@[a]@));
            }
            if is_code(users, code) {
                assert(keys.contains(code));
            }
        }
        assert forall|code: Seq<char>| #[trigger] self.has_key(code) implies self.referred@[self.index_of(
            code,
        )].deep_view() == referred_by(users, code) by {
            let a = self.index_of(code);
            assert(0 <= a < self.codes@.len() && self.codes@[a]@ == code);
        }
        assert(self@ =~= referral_map(users));
    }

    fn find(&self, code: &String) -> (r: Option<usize>)
        requires
            self.wf(),
        ensures
            match r {
                Some(a) => a < self.codes@.len() && self.codes@[a as int]@ == code@,
                None => !self.has_key(code@),
            },
    {
        find_code(&self.codes, code)
    }

    /// Makes `code` a key, with the list that `users` give it, if it is not one.
    fn add_key(&mut self, code: &String, Ghost(keys): Ghost<Set<Seq<char>>>, Ghost(users): Ghost<Seq<User>>)
        requires
            old(self).holds(keys, users),
            !keys.contains(code@) ==> referred_by(users, code@) == Seq::<Seq<char>>::empty(),
        ensures
            final(self).holds(keys.insert(code@), users),
    {
        if self.find(code).is_none() {
            let ghost prev = *self;
            self.codes.push(code.clone());
            self.referred.push(Vec::new());
            proof {
                let n = prev.codes@.len() as int;
                assert(self.codes@[n]@ == code@);
                assert forall|a: int| 0 <= a < n implies self.codes@[a] == prev.codes@[a]
                    && self.referred@[a] == prev.referred@[a] by {}
                if keys.contains(code@) {
                    assert(prev.has_key(code@));
                }
                assert(self.referred@[n].deep_view() =~= Seq::<Seq<char>>::empty());
                assert forall|c: Seq<char>| #[trigger] keys.insert(code@).contains(c) implies self.has_key(c) by {
                    if c == code@ {
                        assert(self.codes@[n]@ == c);
                    } else {
                        assert(prev.has_key(c));
                        let a = choose|a: int| 0 <= a < prev.codes@.len() && #[trigger] prev.codes@[a]@ == c;
                        assert(self.codes@[a]@ == c);
                    }
                }
            }
        } else {
            proof {
                assert forall|c: Seq<char>| #[trigger] keys.insert(code@).contains(c) implies self.has_key(c) by {
                    if c == code@ {
                    }
                }
            }
        }
    }

    /// Makes `u`'s referral code a key and appends `u`'s name to its list.
    fn add_referral(
        &mut self,
        code: &String,
        name: &String,
        Ghost(keys): Ghost<Set<Seq<char>>>,
        Ghost(users): Ghost<Seq<User>>,
        Ghost(u): Ghost<User>,
    )
        requires
            old(self).holds(keys, users),
            u.referral_code@ == code@,
            u.username@ == name@,
            !keys.contains(code@) ==> referred_by(users, code@) == Seq::<Seq<char>>::empty(),
        ensures
            final(self).holds(keys.insert(code@), users.push(u)),
    {
        let ghost prev = *self;
        proof {
            assert forall|c: Seq<char>|
                #[trigger] referred_by(users.push(u), c) == if u.referral_code@ == c {
                    referred_by(users, c).push(u.username@)
                } else {
                    referred_by(users, c)
                } by {
                lemma_referred_by_push(users, u, c);
            }
        }
        match self.find(code) {
            Some(a) => {
                self.referred[a].push(name.clone());
                proof {
                    assert forall|b: int| 0 <= b < self.codes@.len() && b != a implies self.referred@[b]
                        == prev.referred@[b] by {}
                    assert(self.referred@[a as int].deep_view() =~= prev.referred@[a as int].deep_view().push(
                        name@,
                    ));
                    assert forall|c: Seq<char>| #[trigger] keys.insert(code@).contains(c) implies self.has_key(c) by {
                        if c != code@ {
                            assert(prev.has_key(c));
                        }
                    }
                    assert forall|b: int| 0 <= b < self.codes@.len() implies #[trigger] self.referred@[b].deep_view()
                        == referred_by(users.push(u), self.codes@[b]@) by {
                        if b != a {
                            assert(prev.referred@[b].deep_view() == referred_by(users, prev.codes@[b]@));
                            assert(self.codes@[b]@ != code@);
                        }
                    }
                }
            },
            None => {
                let mut names: Vec<String> = Vec::new();
                names.push(name.clone());
                self.codes.push(code.clone());
                self.referred.push(names);
                proof {
                    let n = prev.codes@.len() as int;
                    assert(self.codes@[n]@ == code@);
                    assert forall|b: int| 0 <= b < n implies self.codes@[b] == prev.codes@[b]
                        && self.referred@[b] == prev.referred@[b] by {}
                    if keys.contains(code@) {
                        assert(prev.has_key(code@));
                    }
                    assert(self.referred@[n].deep_view() =~= Seq::<Seq<char>>::empty().push(name@));
                    assert forall|c: Seq<char>| #[trigger] keys.insert(code@).contains(c) implies self.has_key(c) by {
                        if c == code@ {
                            assert(self.codes@[n]@ == c);
                        } else {
                            assert(prev.has_key(c));
                            let a = choose|a: int| 0 <= a < prev.codes@.len() && #[trigger] prev.codes@[a]@ == c;
                            assert(self.codes@[a]@ == c);
                        }
                    }
                    assert forall|b: int| 0 <= b < self.codes@.len() implies #[trigger] self.referred@[b].deep_view()
                        == referred_by(users.push(u), self.codes@[b]@) by {
                        if b != n {
                            assert(prev.referred@[b].deep_view() == referred_by(users, prev.codes@[b]@));
                            assert(self.codes@[b]@ != code@);
                        }
                    }
                }
            },
        }
    }
}


/// Builds the referral map of `users`: every user's own invite code and every
/// code a user signed up with becomes a key, and each key lists, in the order
/// of `users`, the names of the users who signed up with it.
pub fn build_referral_map(users: &Vec<User>) -> (m: ReferralMap)
    ensures
        m.wf(),
        m@ == referral_map(users@),
        forall|code: Seq<char>|
            #[trigger] m@.contains_key(code) <==> exists|j: int|
                #![trigger users@[j]]
                0 <= j < users@.len() && (users@[j].personal_invite_code@ == code
                    || users@[j].referral_code@ == code),
        forall|code: Seq<char>|
            #[trigger] m@.contains_key(code) ==> m@[code] == usernames(referrers(users@, code)),
{
    proof {
        lemma_referral_map_meaning(users@);
    }
    let mut m = ReferralMap { codes: Vec::new(), referred: Vec::new() };
    proof {
        assert(Set::new(|code: Seq<char>| is_code(users@.take(0), code)) =~= Set::<Seq<char>>::empty());
    }
    let mut i: usize = 0;
    while i < users.len()
        invariant
            i <= users@.len(),
            m.holds(Set::new(|code: Seq<char>| is_code(users@.take(i as int), code)), users@.take(i as int)),
        decreases users@.len() - i,
    {
        let u = &users[i];
        let ghost prefix = users@.take(i as int);
        let ghost keys = Set::new(|code: Seq<char>| is_code(prefix, code));
        proof {
            if !keys.contains(u.personal_invite_code@) {
                lemma_referred_by_unused(prefix, u.personal_invite_code@);
            }
            if !is_code(prefix, u.referral_code@) {
                lemma_referred_by_unused(prefix, u.referral_code@);
            }
        }
        m.add_key(&u.personal_invite_code, Ghost(keys), Ghost(prefix));
        m.add_referral(
            &u.referral_code,
            &u.username,
            Ghost(keys.insert(u.personal_invite_code@)),
            Ghost(prefix),
            Ghost(*u),
        );
        proof {
            assert(users@.take(i + 1) =~= prefix.push(*u));
            assert forall|code: Seq<char>| #[trigger] is_code(prefix.push(*u), code) == (is_code(prefix, code)
                || uses_code(*u, code)) by {
                lemma_is_code_push(prefix, *u, code);
            }
            assert(Set::new(|code: Seq<char>| is_code(users@.take(i + 1), code)) =~= keys.insert(
                u.personal_invite_code@,
            ).insert(u.referral_code@));
        }
        i = i + 1;
    }
    proof {
        assert(users@.take(users@.len() as int) =~= users@);
        m.lemma_view_of_holds(users@);
    }
    m
}


impl ReferralMap {
    /// The entries, read by position, are exactly the map: each key at a
    /// position is in the map with the list at that position, and every key of
    /// the map sits at some position.
    pub proof fn lemma_entries_are_the_map(&self)
        requires
            self.wf(),
        ensures
            forall|i: int|
                0 <= i < self.spec_len() ==> #[trigger] self@.contains_key(self.key_at(i))
                    && self@[self.key_at(i)] == self.names_at(i),
            forall|code: Seq<char>|
                #[trigger] self@.contains_key(code) ==> exists|i: int|
                    0 <= i < self.spec_len() && #[trigger] self.key_at(i) == code,
    {
        assert forall|i: int| 0 <= i < self.spec_len() implies #[trigger] self@.contains_key(self.key_at(i))
            && self@[self.key_at(i)] == self.names_at(i) by {
            let code = self.codes@[i]@;
            assert(self.has_key(code));
            let a = self.index_of(code);
            assert(0 <= a < self.codes@.len() && self.codes@[a]@ == code);
            assert(a == i);
        }
        assert forall|code: Seq<char>| #[trigger] self@.contains_key(code) implies exists|i: int|
            0 <= i < self.spec_len() && #[trigger] self.key_at(i) == code by {
            let a = self.index_of(code);
            assert(self.key_at(a) == code);
        }
    }

    /// The number of keys.
    pub fn len(&self) -> (r: usize)
        ensures
            r == self.spec_len(),
    {
        self.codes.len()
    }

    /// The key at position `i`.
    pub fn key(&self, i: usize) -> (r: &String)
        requires
            i < self.spec_len(),
        ensures
            r@ == self.key_at(i as int),
    {
        &self.codes[i]
    }

    /// The usernames listed under the key at position `i`.
    pub fn names(&self, i: usize) -> (r: &Vec<String>)
        requires
            self.wf(),
            i < self.spec_len(),
        ensures
            r.deep_view() == self.names_at(i as int),
    {
        &self.referred[i]
    }

    /// The usernames listed under `code`, if it is a key.
    pub fn get(&self, code: &String) -> (r: Option<&Vec<String>>)
        requires
            self.wf(),
        ensures
            match r {
                Some(names) => self@.contains_key(code@) && names.deep_view() == self@[code@],
                None => !self@.contains_key(code@),
            },
    {
        proof {
            self.lemma_entries_are_the_map();
        }
        match self.find(code) {
            Some(a) => Some(&self.referred[a]),
            None => None,
        }
    }
}

} // verus!
