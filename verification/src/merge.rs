//! The accumulator that discovery folds over helper replies, and the
//! mathematical statement of that fold: per field, the first writer wins, and
//! iteration stops as soon as both fields are known.
use vstd::prelude::*;

verus! {

/// Keep `cur` when it is already known; otherwise adopt `new`.
pub open spec fn first_fill(cur: Option<Seq<char>>, new: Option<Seq<char>>) -> Option<Seq<char>> {
    if cur is Some {
        cur
    } else {
        new
    }
}

/// The first known value in a row of candidates, if any.
pub open spec fn first_some(s: Seq<Option<Seq<char>>>) -> Option<Seq<char>>
    decreases s.len(),
{
    if s.len() == 0 {
        None
    } else if s[0] is Some {
        s[0]
    } else {
        first_some(s.drop_first())
    }
}

/// A discovered credential exists only when both fields are known.
pub open spec fn paired(u: Option<Seq<char>>, p: Option<Seq<char>>) -> Option<
    (Seq<char>, Seq<char>),
> {
    match (u, p) {
        (Some(u), Some(p)) => Some((u, p)),
        _ => None,
    }
}

/// The usernames offered by a row of replies, in order.
pub open spec fn reply_usernames(replies: Seq<(Option<Seq<char>>, Option<Seq<char>>)>) -> Seq<
    Option<Seq<char>>,
> {
    replies.map_values(|r: (Option<Seq<char>>, Option<Seq<char>>)| r.0)
}

/// The passwords offered by a row of replies, in order.
pub open spec fn reply_passwords(replies: Seq<(Option<Seq<char>>, Option<Seq<char>>)>) -> Seq<
    Option<Seq<char>>,
> {
    replies.map_values(|r: (Option<Seq<char>>, Option<Seq<char>>)| r.1)
}

/// What discovery returns, given the seed username and the parsed reply of
/// each helper in precedence order: the username is the seed if known, else
/// the first username any reply offered; the password is the first password
/// any reply offered; a credential exists only when both are known.
pub open spec fn spec_execute(
    seed: Option<Seq<char>>,
    replies: Seq<(Option<Seq<char>>, Option<Seq<char>>)>,
) -> Option<(Seq<char>, Seq<char>)> {
    paired(
        first_some(seq![seed] + reply_usernames(replies)),
        first_some(reply_passwords(replies)),
    )
}

/// The running state of one discovery: the fields found so far.
pub struct Discovery {
    /// The username found so far, if any.
    pub username: Option<String>,
    /// The password found so far, if any.
    pub password: Option<String>,
}

impl Discovery {
    /// Fold one helper's reply in: each field is adopted only if it is not
    /// yet known, so an earlier helper is never overridden by a later one.
    pub fn absorb(&mut self, u: Option<String>, p: Option<String>)
        ensures
            final(self).username.deep_view() == first_fill(
                old(self).username.deep_view(),
                u.deep_view(),
            ),
            final(self).password.deep_view() == first_fill(
                old(self).password.deep_view(),
                p.deep_view(),
            ),
    {
        if u.is_some() && self.username.is_none() {
            self.username = u;
        }
        if p.is_some() && self.password.is_none() {
            self.password = p;
        }
    }

    /// Both fields are known: no further helper needs to run.
    pub fn complete(&self) -> (ret: bool)
        ensures
            ret == (self.username.deep_view() is Some && self.password.deep_view() is Some),
    {
        self.username.is_some() && self.password.is_some()
    }

    /// The discovery's outcome: the pair when both fields were found,
    /// nothing otherwise.
    pub fn finish(self) -> (ret: Option<(String, String)>)
        ensures
            ret.deep_view() == paired(self.username.deep_view(), self.password.deep_view()),
    {
        match (self.username, self.password) {
            (Some(u), Some(p)) => Some((u, p)),
            _ => None,
        }
    }
}

/// Once a row of candidates holds a known value, appending more candidates
/// never changes which one is picked.
pub proof fn lemma_first_some_append(s: Seq<Option<Seq<char>>>, t: Seq<Option<Seq<char>>>)
    ensures
        first_some(s + t) == (if first_some(s) is Some {
            first_some(s)
        } else {
            first_some(t)
        }),
    decreases s.len(),
{
    if s.len() == 0 {
        assert(s + t =~= t);
    } else {
        assert((s + t).drop_first() =~= s.drop_first() + t);
        lemma_first_some_append(s.drop_first(), t);
    }
}

/// Growing the row by one candidate at the end: the new candidate matters
/// only when nothing earlier was known.
pub proof fn lemma_first_some_push(s: Seq<Option<Seq<char>>>, x: Option<Seq<char>>)
    ensures
        first_some(s.push(x)) == (if first_some(s) is Some {
            first_some(s)
        } else {
            x
        }),
{
    assert(s.push(x) =~= s + seq![x]);
    lemma_first_some_append(s, seq![x]);
    assert(first_some(Seq::<Option<Seq<char>>>::empty()) is None);
    assert(seq![x].drop_first() =~= Seq::<Option<Seq<char>>>::empty());
    assert(first_some(seq![x]) == x);
}

/// Once the candidates seen so far hold a known value, the rest of the row
/// no longer matters.
pub proof fn lemma_first_some_prefix(s: Seq<Option<Seq<char>>>, i: int)
    requires
        0 <= i <= s.len(),
        first_some(s.take(i)) is Some,
    ensures
        first_some(s) == first_some(s.take(i)),
{
    assert(s =~= s.take(i) + s.skip(i));
    lemma_first_some_append(s.take(i), s.skip(i));
}

/// A row of three candidates picks the first known one.
pub proof fn lemma_first_some3(
    a: Option<Seq<char>>,
    b: Option<Seq<char>>,
    c: Option<Seq<char>>,
)
    ensures
        first_some(seq![a, b, c]) == (if a is Some {
            a
        } else if b is Some {
            b
        } else {
            c
        }),
{
    let s = seq![a, b, c];
    assert(s.drop_first() =~= seq![b, c]);
    assert(seq![b, c].drop_first() =~= seq![c]);
    assert(seq![c].drop_first() =~= Seq::<Option<Seq<char>>>::empty());
    assert(first_some(Seq::<Option<Seq<char>>>::empty()) is None);
    assert(first_some(seq![c]) == c);
    assert(first_some(seq![b, c]) == (if b is Some {
        b
    } else {
        c
    }));
}

/// A candidate that offers nothing can be dropped from anywhere in the row
/// without changing which value is picked.
pub proof fn lemma_first_some_insert_none(s: Seq<Option<Seq<char>>>, i: int)
    requires
        0 <= i <= s.len(),
    ensures
        first_some(s.insert(i, None)) == first_some(s),
    decreases s.len(),
{
    if i == 0 {
        assert(s.insert(0, None).drop_first() =~= s);
        assert(s.insert(0, None)[0] is None);
    } else {
        assert(s.insert(i, None)[0] == s[0]);
        assert(s.insert(i, None).drop_first() =~= s.drop_first().insert(i - 1, None));
        lemma_first_some_insert_none(s.drop_first(), i - 1);
    }
}

} // verus!
