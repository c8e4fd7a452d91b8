//! The laws of discovery, stated over the same spec functions that the
//! executable functions' contracts use.
use vstd::prelude::*;

use crate::config::Config;
use crate::cred::{helper_commands, normalize_cmd, HelperView};
use crate::merge::{
    lemma_first_some_insert_none, lemma_first_some_prefix, reply_passwords, reply_usernames,
    spec_execute,
};

verus! {

/// With no configured helper there is no reply to draw a password from, so
/// discovery reports "not found" — whether or not a username was seeded.
pub proof fn lemma_no_helpers_not_found(
    seed: Option<Seq<char>>,
    replies: Seq<(Option<Seq<char>>, Option<Seq<char>>)>,
)
    requires
        replies.len() == 0,
    ensures
        spec_execute(seed, replies) is None,
{
    assert(reply_passwords(replies) =~= Seq::<Option<Seq<char>>>::empty());
}

/// Discovery is repeatable: against the same seed and the same helper
/// replies, a second run reaches the same result as the first.
pub proof fn lemma_discovery_repeatable(
    seed_first: Option<Seq<char>>,
    replies_first: Seq<(Option<Seq<char>>, Option<Seq<char>>)>,
    seed_second: Option<Seq<char>>,
    replies_second: Seq<(Option<Seq<char>>, Option<Seq<char>>)>,
)
    requires
        seed_first == seed_second,
        replies_first == replies_second,
    ensures
        spec_execute(seed_first, replies_first) == spec_execute(seed_second, replies_second),
{
}

/// A helper that gives no answer — because it could not be spawned, exited
/// with a failure, or its output held neither field — can stand anywhere in
/// the row without changing the outcome: it neither aborts discovery nor
/// keeps a later helper from supplying the answer.
pub proof fn lemma_failed_helper_skipped(
    seed: Option<Seq<char>>,
    replies: Seq<(Option<Seq<char>>, Option<Seq<char>>)>,
    i: int,
)
    requires
        0 <= i <= replies.len(),
    ensures
        spec_execute(seed, replies.insert(i, (None, None))) == spec_execute(seed, replies),
{
    let grown = replies.insert(i, (None, None));
    assert(reply_usernames(grown) =~= reply_usernames(replies).insert(i, None));
    assert(reply_passwords(grown) =~= reply_passwords(replies).insert(i, None));
    assert(seq![seed] + reply_usernames(grown) =~= (seq![seed] + reply_usernames(replies)).insert(
        i + 1,
        None,
    ));
    lemma_first_some_insert_none(seq![seed] + reply_usernames(replies), i + 1);
    lemma_first_some_insert_none(reply_passwords(replies), i);
}

/// Short-circuit: once the replies consulted so far have settled both
/// fields, the replies after them cannot change the result — which is why
/// the remaining helpers need not run at all.
pub proof fn lemma_short_circuit(
    seed: Option<Seq<char>>,
    replies: Seq<(Option<Seq<char>>, Option<Seq<char>>)>,
    i: int,
)
    requires
        0 <= i <= replies.len(),
        spec_execute(seed, replies.take(i)) is Some,
    ensures
        spec_execute(seed, replies) == spec_execute(seed, replies.take(i)),
{
    let prefix = replies.take(i);
    assert((seq![seed] + reply_usernames(replies)).take(i + 1) =~= seq![seed] + reply_usernames(
        prefix,
    ));
    assert(reply_passwords(replies).take(i) =~= reply_passwords(prefix));
    lemma_first_some_prefix(seq![seed] + reply_usernames(replies), i + 1);
    lemma_first_some_prefix(reply_passwords(replies), i);
}

/// However the URL fared — parsed or not, host or none — the global
/// `credential.helper` key is always consulted, so a configured global
/// helper is always among the commands that discovery will run.
pub proof fn lemma_global_helper_always_consulted(cfg: &Config, h: HelperView)
    ensures
        cfg.spec_get("credential.helper"@) matches Some(v) ==> helper_commands(cfg, h).contains(
            normalize_cmd(v),
        ),
{
    if let Some(v) = cfg.spec_get("credential.helper"@) {
        let all = helper_commands(cfg, h);
        assert(all[all.len() - 1] == normalize_cmd(v));
    }
}

} // verus!
