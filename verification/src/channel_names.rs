use vstd::prelude::*;
use vstd::string::{StrSliceExecFns, StringExecFns};

use crate::launch::views;

verus! {

/// What an argument that names the channel `which` starts with.
pub open spec fn spec_channel_prefix(which: Seq<char>) -> Seq<char> {
    "channel_name-"@ + which + ":"@
}

/// The argument that hands the channel name `val` to a child under the name `name`.
pub open spec fn spec_channel_arg(name: Seq<char>, val: Seq<char>) -> Seq<char> {
    spec_channel_prefix(name) + val
}

pub open spec fn starts_with(s: Seq<char>, prefix: Seq<char>) -> bool {
    prefix.len() <= s.len() && s.take(prefix.len() as int) == prefix
}

/// The channel name that the first argument which names channel `which` carries.
pub open spec fn spec_find_channel_name(args: Seq<Seq<char>>, which: Seq<char>) -> Option<
    Seq<char>,
>
    decreases args.len(),
{
    if args.len() == 0 {
        None
    } else if starts_with(args[0], spec_channel_prefix(which)) {
        Some(args[0].skip(spec_channel_prefix(which).len() as int))
    } else {
        spec_find_channel_name(args.drop_first(), which)
    }
}

fn channel_prefix(which: &str) -> (r: String)
    ensures
        r@ == spec_channel_prefix(which@),
{
    "channel_name-".to_owned().concat(which).concat(":")
}

fn str_starts_with(s: &str, prefix: &str) -> (r: bool)
    ensures
        r == starts_with(s@, prefix@),
{
    let n = prefix.unicode_len();
    if s.unicode_len() < n {
        return false;
    }
    let mut k: usize = 0;
    while k < n
        invariant
            n == prefix@.len() <= s@.len(),
            k <= n,
            s@.take(k as int) =~= prefix@.take(k as int),
        decreases n - k,
    {
        if s.get_char(k) != prefix.get_char(k) {
            assert(s@.take(n as int)[k as int] != prefix@[k as int]);
            return false;
        }
        assert(s@.take(k + 1) =~= s@.take(k as int).push(s@[k as int]));
        assert(prefix@.take(k + 1) =~= prefix@.take(k as int).push(prefix@[k as int]));
        k = k + 1;
    }
    assert(prefix@ =~= prefix@.take(n as int));
    true
}

/// The channel name that the command line `args` hands over for the channel
/// `which`: what follows `channel_name-{which}:` in the first argument that
/// starts so.
pub fn get_channel_name_arg(args: &Vec<String>, which: &str) -> (r: Option<String>)
    ensures
        match r {
            Some(v) => spec_find_channel_name(views(args@), which@) == Some(v@),
            None => spec_find_channel_name(views(args@), which@) is None,
        },
{
    let arg_str = channel_prefix(which);
    let mut k: usize = 0;
    assert(views(args@).skip(0) =~= views(args@));
    while k < args.len()
        invariant
            k <= args.len(),
            arg_str@ == spec_channel_prefix(which@),
            spec_find_channel_name(views(args@), which@) == spec_find_channel_name(
                views(args@).skip(k as int),
                which@,
            ),
        decreases args.len() - k,
    {
        let arg = args[k].as_str();
        proof {
            assert(views(args@).skip(k as int)[0] == arg@);
            assert(views(args@).skip(k as int).drop_first() =~= views(args@).skip(k + 1));
        }
        if str_starts_with(arg, arg_str.as_str()) {
            let rest = arg.substring_char(arg_str.unicode_len(), arg.unicode_len());
            return Some(rest.to_owned());
        }
        k = k + 1;
    }
    None
}

/// The command line of a child process: the name of what it runs, then one
/// argument per channel name that it is handed.
pub fn spawn_args(test_name: &str, server_args: &Vec<(String, String)>) -> (r: Vec<String>)
    ensures
        views(r@) == seq![test_name@] + server_args@.map_values(
            |p: (String, String)| spec_channel_arg(p.0@, p.1@),
        ),
{
    let mut out: Vec<String> = Vec::new();
    out.push(test_name.to_owned());
    let mut k: usize = 0;
    while k < server_args.len()
        invariant
            k <= server_args.len(),
            views(out@) =~= seq![test_name@] + server_args@.take(k as int).map_values(
                |p: (String, String)| spec_channel_arg(p.0@, p.1@),
            ),
        decreases server_args.len() - k,
    {
        let ghost before = out@;
        let name = server_args[k].0.as_str();
        let val = server_args[k].1.as_str();
        let arg = channel_prefix(name).concat(val);
        assert(arg@ == spec_channel_arg(server_args@[k as int].0@, server_args@[k as int].1@));
        out.push(arg);
        proof {
            assert(views(out@) =~= views(before).push(arg@));
            assert(server_args@.take(k + 1) =~= server_args@.take(k as int).push(server_args@[k as int]));
        }
        k = k + 1;
    }
    assert(server_args@.take(k as int) =~= server_args@);
    out
}

/// A child finds the channel name it was handed: after arguments none of which
/// names the channel `name`, the argument that hands it `val` yields `val`,
/// whatever follows.
pub proof fn lemma_channel_name_roundtrip(
    pre: Seq<Seq<char>>,
    name: Seq<char>,
    val: Seq<char>,
    post: Seq<Seq<char>>,
)
    requires
        forall|k: int| 0 <= k < pre.len() ==> !starts_with(#[trigger] pre[k], spec_channel_prefix(name)),
    ensures
        spec_find_channel_name(pre + seq![spec_channel_arg(name, val)] + post, name) == Some(val),
    decreases pre.len(),
{
    let all = pre + seq![spec_channel_arg(name, val)] + post;
    let p = spec_channel_prefix(name);
    if pre.len() == 0 {
        assert(all[0] == p + val);
        assert((p + val).take(p.len() as int) =~= p);
        assert((p + val).skip(p.len() as int) =~= val);
    } else {
        assert(all[0] == pre[0]);
        assert(all.drop_first() =~= pre.drop_first() + seq![spec_channel_arg(name, val)] + post);
        lemma_channel_name_roundtrip(pre.drop_first(), name, val, post);
    }
}


/// The prefix names the whole channel: `channel_name-` (thirteen characters),
/// then every character of `which`, then `:`.
pub proof fn lemma_channel_prefix_form(which: Seq<char>)
    ensures
        spec_channel_prefix(which).len() == 13 + which.len() + 1,
        spec_channel_prefix(which).take(13) == "channel_name-"@,
        spec_channel_prefix(which).subrange(13, 13 + which.len() as int) == which,
        spec_channel_prefix(which)[13 + which.len() as int] == ':',
{
    reveal_strlit("channel_name-");
    reveal_strlit(":");
    let p = spec_channel_prefix(which);
    assert(p.take(13) =~= "channel_name-"@);
    assert(p.subrange(13, 13 + which.len() as int) =~= which);
}

/// Channels with different names, neither holding a `:`, never answer for each
/// other: the argument that hands over channel `b` does not start with the
/// prefix of channel `a`, so a child looking for `a` passes it by.
pub proof fn lemma_channel_names_distinct(a: Seq<char>, b: Seq<char>, val: Seq<char>)
    requires
        a != b,
        !a.contains(':'),
        !b.contains(':'),
    ensures
        !starts_with(spec_channel_arg(b, val), spec_channel_prefix(a)),
{
    lemma_channel_prefix_form(a);
    lemma_channel_prefix_form(b);
    let pa = spec_channel_prefix(a);
    let pb = spec_channel_prefix(b);
    let arg = spec_channel_arg(b, val);
    assert(arg == pb + val);
    if starts_with(arg, pa) {
        assert(arg.take(pa.len() as int) == pa);
        if a.len() == b.len() {
            assert forall|i: int| 0 <= i < a.len() implies a[i] == b[i] by {
                assert(pa.subrange(13, 13 + a.len() as int)[i] == pa[13 + i]);
                assert(pb.subrange(13, 13 + b.len() as int)[i] == pb[13 + i]);
                assert(arg.take(pa.len() as int)[13 + i] == arg[13 + i]);
            }
            assert(a =~= b);
        } else if a.len() < b.len() {
            let i = a.len() as int;
            assert(pa[13 + i] == ':');
            assert(arg.take(pa.len() as int)[13 + i] == arg[13 + i]);
            assert(pb.subrange(13, 13 + b.len() as int)[i] == pb[13 + i]);
            assert(b[i] == ':');
            assert(b.contains(':'));
        } else {
            let i = b.len() as int;
            assert(pb[13 + i] == ':');
            assert(arg.take(pa.len() as int)[13 + i] == arg[13 + i]);
            assert(pa.subrange(13, 13 + a.len() as int)[i] == pa[13 + i]);
            assert(a[i] == ':');
            assert(a.contains(':'));
        }
    }
}

/// Among the arguments that hand over channels with different names, none of
/// which holds a `:`, a child looking for one of them finds exactly its value.
pub proof fn lemma_spawn_args_found(
    test_name: Seq<char>,
    names: Seq<Seq<char>>,
    vals: Seq<Seq<char>>,
    k: int,
)
    requires
        names.len() == vals.len(),
        0 <= k < names.len(),
        forall|i: int, j: int| 0 <= i < j < names.len() ==> names[i] != names[j],
        forall|i: int| 0 <= i < names.len() ==> !(#[trigger] names[i]).contains(':'),
        !starts_with(test_name, spec_channel_prefix(names[k])),
    ensures
        spec_find_channel_name(
            seq![test_name] + Seq::new(
                names.len(),
                |i: int| spec_channel_arg(names[i], vals[i]),
            ),
            names[k],
        ) == Some(vals[k]),
{
    let args = Seq::new(names.len(), |i: int| spec_channel_arg(names[i], vals[i]));
    let all = seq![test_name] + args;
    let pre = all.take(k + 1);
    let post = all.skip(k + 2);
    assert forall|i: int| 0 <= i < pre.len() implies !starts_with(
        #[trigger] pre[i],
        spec_channel_prefix(names[k]),
    ) by {
        if i > 0 {
            assert(pre[i] == spec_channel_arg(names[i - 1], vals[i - 1]));
            lemma_channel_names_distinct(names[k], names[i - 1], vals[i - 1]);
        }
    }
    lemma_channel_name_roundtrip(pre, names[k], vals[k], post);
    assert(pre + seq![spec_channel_arg(names[k], vals[k])] + post =~= all);
}

} // verus!
