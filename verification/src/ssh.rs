//! Connections to a device: how to log in, and with which key.

use vstd::prelude::*;

use crate::text::order::{law_text_order, text_lt};
use crate::text::scan::{same, texts};
use crate::text::sort::{law_sorted_holds, sorts, stable_sort, stably_sorted, Ranked};

verus! {

/// The milliseconds after which a step of a connection is given up.
pub const SSH_TIMEOUT: u32 = 10_000;

/// The port that devices listen on.
pub const SSH_PORT: u16 = 22;

/// The message for a key that the agent does not hold.
pub const IDENTITY_NOT_FOUND: &'static str = "Identity not found in SSH agent";

/// The message for a login that was refused.
pub const AUTHENTICATION_FAILED: &'static str = "Authentication failed";

/// Whom to connect to, and how to log in.
#[derive(Clone, Copy, Debug)]
pub struct SshOptions<'options> {
    pub host: &'options str,
    pub user: &'options str,
    pub identity: Option<&'options str>,
    pub password: Option<&'options str>,
}

/// A connection to a device.
pub struct Ssh<'ssh> {
    pub options: SshOptions<'ssh>,
}

/// How to log in.
#[derive(Clone, Copy, Debug)]
pub enum Login<'login> {
    /// Nothing is asked for.
    Done,
    /// By password.
    Password(&'login str),
    /// By the agent's key with this comment.
    Identity(&'login str),
    /// By any key of the agent.
    Agent,
}

/// How to log in. A password goes before a key.
pub open spec fn login_of<'a>(o: SshOptions<'a>, authenticated: bool) -> Login<'a> {
    if authenticated {
        Login::Done
    } else {
        match (o.password, o.identity) {
            (Some(p), _) => Login::Password(p),
            (None, Some(c)) => Login::Identity(c),
            (None, None) => Login::Agent,
        }
    }
}

impl<'ssh> Ssh<'ssh> {
    /// A connection with these options.
    pub fn new(options: SshOptions<'ssh>) -> (r: Ssh<'ssh>)
        ensures
            r.options == options,
    {
        Ssh { options }
    }

    /// How to log in, where `authenticated` says that the device asks for
    /// nothing more. A password goes before a key.
    pub fn login(&self, authenticated: bool) -> (r: Login<'ssh>)
        ensures
            r == if authenticated {
                Login::Done
            } else {
                match (self.options.password, self.options.identity) {
                    (Some(p), _) => Login::Password(p),
                    (None, Some(c)) => Login::Identity(c),
                    (None, None) => Login::Agent,
                }
            },
            r == login_of(self.options, authenticated),
    {
        if authenticated {
            return Login::Done;
        }
        match (self.options.password, self.options.identity) {
            (Some(p), _) => Login::Password(p),
            (None, Some(c)) => Login::Identity(c),
            (None, None) => Login::Agent,
        }
    }
}

/// The first place at or after `from` at which `x` is.
pub open spec fn place_of(s: Seq<Seq<char>>, x: Seq<char>, from: int) -> Option<int>
    decreases s.len() - from,
{
    if from < 0 || from >= s.len() {
        None
    } else if s[from] == x {
        Some(from)
    } else {
        place_of(s, x, from + 1)
    }
}

/// The first of the agent's keys with that comment.
pub fn find_identity(comments: &Vec<String>, wanted: &str) -> (r: Result<usize, &'static str>)
    ensures
        match r {
            Ok(i) => i < comments@.len() && texts(comments@)[i as int] == wanted@ && forall|k: int|
                0 <= k < i ==> #[trigger] texts(comments@)[k] != wanted@,
            Err(e) => e@ == IDENTITY_NOT_FOUND@ && !texts(comments@).contains(wanted@),
        },
        match place_of(texts(comments@), wanted@, 0) {
            Some(i) => r matches Ok(j) && i == j,
            None => r is Err,
        },
{
    let mut i: usize = 0;
    while i < comments.len()
        invariant
            i <= comments.len(),
            forall|k: int| 0 <= k < i ==> #[trigger] texts(comments@)[k] != wanted@,
            place_of(texts(comments@), wanted@, 0) == place_of(texts(comments@), wanted@, i as int),
        decreases comments.len() - i,
    {
        assert(texts(comments@)[i as int] == comments@[i as int]@);
        if same(comments[i].as_str(), wanted) {
            return Ok(i);
        }
        i += 1;
    }
    Err(IDENTITY_NOT_FOUND)
}

/// What is not empty.
pub open spec fn named(comments: Seq<Seq<char>>) -> Seq<Seq<char>> {
    comments.filter(|c: Seq<char>| c.len() > 0)
}

/// The comments that are not empty, in ascending order.
pub fn sorted_identities(comments: Vec<String>) -> (r: Vec<String>)
    ensures
        exists|kept: Seq<String>|
            texts(kept) == named(texts(comments@)) && #[trigger] stably_sorted(kept, r@),
{
    let ghost all = texts(comments@);
    let ghost keep = |c: Seq<char>| c.len() > 0;
    let mut kept: Vec<String> = Vec::new();
    let mut i: usize = 0;
    assert(all.take(0).filter(keep) =~= Seq::<Seq<char>>::empty()) by {
        reveal(Seq::filter);
    }
    while i < comments.len()
        invariant
            i <= comments.len(),
            all == texts(comments@),
            keep == (|c: Seq<char>| c.len() > 0),
            texts(kept@) == all.take(i as int).filter(keep),
        decreases comments.len() - i,
    {
        let ghost s = all.take(i as int);
        let ghost x = all[i as int];
        let ghost k0 = texts(kept@);
        assert(x == comments@[i as int]@);
        if !comments[i].as_str().is_empty() {
            kept.push(comments[i].clone());
            assert(texts(kept@) =~= k0.push(x));
        }
        i += 1;
        assert(all.take(i as int) == s.push(x));
        assert(s.push(x).drop_last() == s);
        reveal(Seq::filter);
    }
    assert(all.take(all.len() as int) == all);
    let ghost k = kept@;
    let r: Vec<String> = stable_sort(kept);
    assert(texts(k) == named(texts(comments@)) && stably_sorted(k, r@));
    r
}

/// The choices for a key: none first, then the comments.
pub open spec fn choices(identities: Seq<Seq<char>>) -> Seq<Seq<char>> {
    seq![Seq::<char>::empty()] + identities
}

/// The choices for a key: none first, then the comments.
pub fn identity_choices(identities: Vec<String>) -> (r: Vec<String>)
    ensures
        texts(r@) == seq![Seq::<char>::empty()] + texts(identities@),
        texts(r@) == choices(texts(identities@)),
{
    let ghost s = texts(identities@);
    let mut r: Vec<String> = identities;
    let none: String = String::new();
    assert(none@ =~= Seq::<char>::empty());
    r.insert(0, none);
    assert(texts(r@) =~= seq![Seq::<char>::empty()] + s);
    r
}

/// Sorted identities ascend, each is the comment of a key, and none is empty.
pub proof fn law_identities(comments: Seq<Seq<char>>, kept: Seq<String>, r: Seq<String>)
    requires
        texts(kept) == named(comments),
        stably_sorted(kept, r),
    ensures
        forall|i: int, j: int|
            0 <= i < j < r.len() ==> texts(r)[i] == texts(r)[j] || text_lt(
                #[trigger] texts(r)[i],
                #[trigger] texts(r)[j],
            ),
        forall|i: int|
            0 <= i < r.len() ==> (#[trigger] texts(r)[i]).len() > 0 && comments.contains(
                texts(r)[i],
            ),
        r.len() == named(comments).len(),
{
    let order = choose|order: Seq<int>| sorts(kept, r, order);
    assert forall|i: int, j: int| 0 <= i < j < r.len() implies texts(r)[i] == texts(r)[j]
        || text_lt(#[trigger] texts(r)[i], #[trigger] texts(r)[j]) by {
        assert(!r[j].precedes(&r[i]));
        law_text_order(r[i]@, r[j]@, r[i]@);
    }
    assert forall|i: int| 0 <= i < r.len() implies (#[trigger] texts(r)[i]).len() > 0
        && comments.contains(texts(r)[i]) by {
        assert(r[i] == kept[order[i]]);
        assert(texts(kept)[order[i]] == texts(r)[i]);
        assert(named(comments)[order[i]] == texts(r)[i]);
        lemma_filter_part(comments, order[i]);
    }
    assert(texts(kept).len() == named(comments).len());
}

/// What a filtered sequence holds passes the filter and is in the sequence.
proof fn lemma_filter_part(s: Seq<Seq<char>>, i: int)
    requires
        0 <= i < named(s).len(),
    ensures
        named(s)[i].len() > 0,
        s.contains(named(s)[i]),
    decreases s.len(),
{
    reveal(Seq::filter);
    if s.len() > 0 {
        let t = s.drop_last();
        if i < named(t).len() {
            lemma_filter_part(t, i);
            let k = choose|k: int| 0 <= k < t.len() && t[k] == named(t)[i];
            assert(s[k] == t[k]);
        } else {
            assert(s[s.len() - 1] == s.last());
        }
    }
}

/// Each comment that is not empty is among the sorted identities.
pub proof fn law_identities_complete(
    comments: Seq<Seq<char>>,
    kept: Seq<String>,
    r: Seq<String>,
    c: Seq<char>,
)
    requires
        texts(kept) == named(comments),
        stably_sorted(kept, r),
        comments.contains(c),
        c.len() > 0,
    ensures
        texts(r).contains(c),
{
    lemma_filter_keeps(comments, c);
    let i = choose|i: int| 0 <= i < named(comments).len() && named(comments)[i] == c;
    assert(texts(kept)[i] == c);
    assert(texts(kept).len() == kept.len());
    law_sorted_holds(kept, r);
    assert(kept.contains(kept[i]));
    assert(r.contains(kept[i]));
    let k = choose|k: int| 0 <= k < r.len() && r[k] == kept[i];
    assert(texts(r)[k] == c);
}

proof fn lemma_filter_keeps(s: Seq<Seq<char>>, c: Seq<char>)
    requires
        s.contains(c),
        c.len() > 0,
    ensures
        named(s).contains(c),
    decreases s.len(),
{
    reveal(Seq::filter);
    let t = s.drop_last();
    if s.last() == c {
        assert(named(s)[named(t).len() as int] == c);
    } else {
        let i = choose|i: int| 0 <= i < s.len() && s[i] == c;
        assert(t[i] == c);
        lemma_filter_keeps(t, c);
        let k = choose|k: int| 0 <= k < named(t).len() && named(t)[k] == c;
        assert(named(s)[k] == c);
    }
}

/// Nothing is asked for where the device asks for nothing more; otherwise a
/// password is used where there is one, else the key that is named, else any.
pub proof fn law_login<'a>(o: SshOptions<'a>)
    ensures
        login_of(o, true) is Done,
        o.password matches Some(p) ==> login_of(o, false) == Login::Password(p),
        o.password is None && o.identity is Some ==> login_of(o, false) == Login::Identity(
            o.identity->0,
        ),
        o.password is None && o.identity is None ==> login_of(o, false) is Agent,
{
}

/// The key that is named is the first with that comment, and none is found
/// exactly where none has it.
pub proof fn law_place(s: Seq<Seq<char>>, x: Seq<char>, from: int)
    requires
        0 <= from,
    ensures
        match place_of(s, x, from) {
            Some(i) => from <= i < s.len() && s[i] == x && forall|k: int|
                from <= k < i ==> #[trigger] s[k] != x,
            None => forall|k: int| from <= k < s.len() ==> #[trigger] s[k] != x,
        },
    decreases s.len() - from,
{
    if from < s.len() && s[from] != x {
        law_place(s, x, from + 1);
    }
}

/// No key is the first choice; after it come the comments, each at its place.
pub proof fn law_choices(identities: Seq<Seq<char>>, i: int)
    ensures
        choices(identities).len() == identities.len() + 1,
        choices(identities)[0].len() == 0,
        0 <= i < identities.len() ==> choices(identities)[i + 1] == identities[i],
{
}

/// Sessions go to the usual port and give up after ten seconds; what fails is
/// said in fixed words.
pub proof fn law_session_limits()
    ensures
        SSH_PORT == 22 && SSH_TIMEOUT == 10_000,
        IDENTITY_NOT_FOUND@ == "Identity not found in SSH agent"@,
        AUTHENTICATION_FAILED@ == "Authentication failed"@,
{
}

} // verus!
