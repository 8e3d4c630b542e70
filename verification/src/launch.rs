use vstd::prelude::*;
use vstd::string::StringExecFns;

verus! {

/// The character of a decimal digit.
pub open spec fn digit_char(d: int) -> char {
    if d == 0 {
        '0'
    } else if d == 1 {
        '1'
    } else if d == 2 {
        '2'
    } else if d == 3 {
        '3'
    } else if d == 4 {
        '4'
    } else if d == 5 {
        '5'
    } else if d == 6 {
        '6'
    } else if d == 7 {
        '7'
    } else if d == 8 {
        '8'
    } else {
        '9'
    }
}

/// The decimal digits of a natural number, most significant first.
pub open spec fn spec_digits(n: nat) -> Seq<char>
    decreases n,
{
    if n < 10 {
        seq![digit_char(n as int)]
    } else {
        spec_digits(n / 10) + seq![digit_char((n % 10) as int)]
    }
}

/// The decimal form of an integer, with a leading `-` when it is negative.
pub open spec fn spec_decimal(n: int) -> Seq<char> {
    if n < 0 {
        seq!['-'] + spec_digits((-n) as nat)
    } else {
        spec_digits(n as nat)
    }
}

fn digit_str(d: u32) -> (r: &'static str)
    requires
        d < 10,
    ensures
        r@ == seq![digit_char(d as int)],
{
    proof {
        reveal_strlit("0");
        reveal_strlit("1");
        reveal_strlit("2");
        reveal_strlit("3");
        reveal_strlit("4");
        reveal_strlit("5");
        reveal_strlit("6");
        reveal_strlit("7");
        reveal_strlit("8");
        reveal_strlit("9");
    }
    match d {
        0 => "0",
        1 => "1",
        2 => "2",
        3 => "3",
        4 => "4",
        5 => "5",
        6 => "6",
        7 => "7",
        8 => "8",
        _ => "9",
    }
}

fn append_digits(s: &mut String, n: u32)
    ensures
        final(s)@ == old(s)@ + spec_digits(n as nat),
    decreases n,
{
    if n >= 10 {
        append_digits(s, n / 10);
    }
    s.append(digit_str(n % 10));
    assert(s@ =~= old(s)@ + spec_digits(n as nat));
}

/// The decimal form of `n`, as `format!("{}", n)` writes it.
pub fn decimal(n: i32) -> (r: String)
    ensures
        r@ == spec_decimal(n as int),
{
    let mut s = String::new();
    if n < 0 {
        proof {
            reveal_strlit("-");
        }
        s.append("-");
        let m: u32 = (0i64 - n as i64) as u32;
        append_digits(&mut s, m);
    } else {
        append_digits(&mut s, n as u32);
    }
    s
}


/// The two descriptors of a pipe, in the process that created it.
#[derive(Copy, Clone, Debug, PartialEq, Eq, Structural)]
pub struct PipeFds {
    pub read_fd: i32,
    pub write_fd: i32,
}

/// A descriptor of the parent process that the child sees under another number.
#[derive(Copy, Clone, Debug, PartialEq, Eq, Structural)]
pub struct FdMap {
    pub parent_fd: i32,
    pub child_fd: i32,
}

/// What starting a task takes: the arguments of its command line and the
/// descriptors it inherits.
pub struct LaunchPlan {
    pub args: Vec<String>,
    pub fd_mappings: Vec<FdMap>,
}

/// A flag before each descriptor number: `flag, fds[0], flag, fds[1], ...`.
pub open spec fn spec_fd_args(flag: Seq<char>, fds: Seq<i32>) -> Seq<Seq<char>>
    decreases fds.len(),
{
    if fds.len() == 0 {
        seq![]
    } else {
        seq![flag, spec_decimal(fds[0] as int)] + spec_fd_args(flag, fds.drop_first())
    }
}

/// The command line of a task process: the task's name, then each pipe it
/// receives on after `-R` and each pipe it sends on after `-S`, each by the number
/// under which the child sees it. A pipe that the task receives on keeps its read
/// end under the number of its write end, and one that it sends on keeps its
/// write end under the number of its read end.
pub open spec fn spec_launch_args(name: Seq<char>, rx: Seq<PipeFds>, tx: Seq<PipeFds>) -> Seq<
    Seq<char>,
> {
    seq!["--command"@, "spawn"@, "--function"@, name] + spec_fd_args(
        "-R"@,
        rx.map_values(|c: PipeFds| c.write_fd),
    ) + spec_fd_args("-S"@, tx.map_values(|c: PipeFds| c.read_fd))
}

/// The descriptors that a task process inherits, as `spec_launch_args` names them.
pub open spec fn spec_fd_mappings(rx: Seq<PipeFds>, tx: Seq<PipeFds>) -> Seq<FdMap> {
    rx.map_values(|c: PipeFds| FdMap { parent_fd: c.read_fd, child_fd: c.write_fd })
        + tx.map_values(|c: PipeFds| FdMap { parent_fd: c.write_fd, child_fd: c.read_fd })
}

pub open spec fn views(v: Seq<String>) -> Seq<Seq<char>> {
    v.map_values(|s: String| s@)
}

fn push_fd_args(args: &mut Vec<String>, flag: &str, fds: &Vec<i32>)
    ensures
        views(final(args)@) == views(old(args)@) + spec_fd_args(flag@, fds@),
{
    let mut k: usize = 0;
    assert(fds@.skip(0) =~= fds@);
    while k < fds.len()
        invariant
            k <= fds.len(),
            views(old(args)@) + spec_fd_args(flag@, fds@) =~= views(args@) + spec_fd_args(
                flag@,
                fds@.skip(k as int),
            ),
        decreases fds.len() - k,
    {
        let ghost before = args@;
        args.push(flag.to_owned());
        args.push(decimal(fds[k]));
        proof {
            assert(fds@.skip(k as int).drop_first() =~= fds@.skip(k + 1));
            assert(views(args@) =~= views(before) + seq![flag@, spec_decimal(fds@[k as int] as int)]);
        }
        k = k + 1;
    }
    assert(fds@.skip(k as int) =~= Seq::<i32>::empty());
}

/// What `launch_process` needs to start the task `name` with the given pipes.
pub fn launch_plan(name: &str, rx_channels: &Vec<PipeFds>, tx_channels: &Vec<PipeFds>) -> (r:
    LaunchPlan)
    ensures
        views(r.args@) == spec_launch_args(name@, rx_channels@, tx_channels@),
        r.fd_mappings@ == spec_fd_mappings(rx_channels@, tx_channels@),
{
    let mut args: Vec<String> = Vec::new();
    args.push("--command".to_owned());
    args.push("spawn".to_owned());
    args.push("--function".to_owned());
    args.push(name.to_owned());
    let mut rx_fds: Vec<i32> = Vec::new();
    let mut tx_fds: Vec<i32> = Vec::new();
    let mut fd_mappings: Vec<FdMap> = Vec::new();
    let mut k: usize = 0;
    while k < rx_channels.len()
        invariant
            k <= rx_channels.len(),
            rx_fds@ =~= rx_channels@.take(k as int).map_values(|c: PipeFds| c.write_fd),
            fd_mappings@ =~= rx_channels@.take(k as int).map_values(
                |c: PipeFds| FdMap { parent_fd: c.read_fd, child_fd: c.write_fd },
            ),
        decreases rx_channels.len() - k,
    {
        let c = rx_channels[k];
        rx_fds.push(c.write_fd);
        fd_mappings.push(FdMap { parent_fd: c.read_fd, child_fd: c.write_fd });
        proof {
            assert(rx_channels@.take(k + 1) =~= rx_channels@.take(k as int).push(c));
        }
        k = k + 1;
    }
    assert(rx_channels@.take(k as int) =~= rx_channels@);
    let ghost rx_maps = fd_mappings@;
    let mut j: usize = 0;
    while j < tx_channels.len()
        invariant
            j <= tx_channels.len(),
            tx_fds@ =~= tx_channels@.take(j as int).map_values(|c: PipeFds| c.read_fd),
            fd_mappings@ =~= rx_maps + tx_channels@.take(j as int).map_values(
                |c: PipeFds| FdMap { parent_fd: c.write_fd, child_fd: c.read_fd },
            ),
        decreases tx_channels.len() - j,
    {
        let c = tx_channels[j];
        tx_fds.push(c.read_fd);
        fd_mappings.push(FdMap { parent_fd: c.write_fd, child_fd: c.read_fd });
        proof {
            assert(tx_channels@.take(j + 1) =~= tx_channels@.take(j as int).push(c));
        }
        j = j + 1;
    }
    assert(tx_channels@.take(j as int) =~= tx_channels@);
    assert(views(args@) =~= seq!["--command"@, "spawn"@, "--function"@, name@]);
    push_fd_args(&mut args, "-R", &rx_fds);
    push_fd_args(&mut args, "-S", &tx_fds);
    LaunchPlan { args, fd_mappings }
}


/// The number that a string of decimal digits stands for, read most significant
/// digit first.
pub open spec fn digits_value(s: Seq<char>) -> int
    decreases s.len(),
{
    if s.len() == 0 {
        0
    } else {
        digits_value(s.drop_last()) * 10 + ((s.last() as u32) - ('0' as u32))
    }
}

/// A character from `0` to `9`.
pub open spec fn is_digit(c: char) -> bool {
    '0' <= c && c <= '9'
}

proof fn lemma_digit_char(d: int)
    requires
        0 <= d < 10,
    ensures
        is_digit(digit_char(d)),
        (digit_char(d) as u32) - ('0' as u32) == d,
{
}

/// The decimal digits of `n` are digits, there is at least one, the first is
/// `0` only for `n` itself 0, and read back they give `n`.
pub proof fn lemma_digits_standard(n: nat)
    ensures
        spec_digits(n).len() >= 1,
        forall|k: int| 0 <= k < spec_digits(n).len() ==> is_digit(#[trigger] spec_digits(n)[k]),
        spec_digits(n)[0] == '0' <==> n == 0,
        digits_value(spec_digits(n)) == n,
    decreases n,
{
    let s = spec_digits(n);
    if n < 10 {
        lemma_digit_char(n as int);
        assert(s.drop_last() =~= Seq::<char>::empty());
        assert(digits_value(s.drop_last()) == 0);
    } else {
        let q = n / 10;
        let d = (n % 10) as int;
        lemma_digits_standard(q);
        lemma_digit_char(d);
        let t = spec_digits(q);
        assert(s == t + seq![digit_char(d)]);
        assert(s.drop_last() =~= t);
        assert(s.last() == digit_char(d));
        assert(s[0] == t[0]);
        assert forall|k: int| 0 <= k < s.len() implies is_digit(#[trigger] s[k]) by {
            if k < t.len() {
                assert(s[k] == t[k]);
            }
        }
        assert(q * 10 + d == n);
    }
}

/// `decimal` writes numbers in the standard decimal form: a non-negative `n` as
/// its digits, which read back give `n` and start with `0` only for `0`; a
/// negative `n` as `-` followed by the digits of `-n`.
pub proof fn lemma_decimal_standard(n: int)
    ensures
        n >= 0 ==> spec_decimal(n) == spec_digits(n as nat),
        n >= 0 ==> digits_value(spec_decimal(n)) == n,
        n >= 0 ==> (forall|k: int|
            0 <= k < spec_decimal(n).len() ==> is_digit(#[trigger] spec_decimal(n)[k])),
        n > 0 ==> spec_decimal(n)[0] != '0',
        n < 0 ==> spec_decimal(n)[0] == '-' && digits_value(spec_decimal(n).drop_first()) == -n,
        n < 0 ==> (forall|k: int|
            1 <= k < spec_decimal(n).len() ==> is_digit(#[trigger] spec_decimal(n)[k])),
{
    if n >= 0 {
        lemma_digits_standard(n as nat);
    } else {
        let m = (-n) as nat;
        lemma_digits_standard(m);
        let s = spec_decimal(n);
        assert(s.drop_first() =~= spec_digits(m));
        assert forall|k: int| 1 <= k < s.len() implies is_digit(#[trigger] s[k]) by {
            assert(s[k] == spec_digits(m)[k - 1]);
        }
    }
}

/// The digits of a number one digit longer: the digits of its leading part, then
/// its last digit.
pub proof fn lemma_digits_append(q: nat, d: nat)
    requires
        q > 0,
        d < 10,
    ensures
        spec_digits(q * 10 + d) == spec_digits(q) + seq![digit_char(d as int)],
{
    let n = q * 10 + d;
    assert(n / 10 == q);
    assert(n % 10 == d);
}

/// The `-R` or `-S` arguments name every descriptor: two arguments per
/// descriptor, the `k`-th being the flag followed by the decimal form of the
/// `k`-th descriptor.
pub proof fn lemma_fd_args_index(flag: Seq<char>, fds: Seq<i32>, k: int)
    requires
        0 <= k < fds.len(),
    ensures
        spec_fd_args(flag, fds).len() == 2 * fds.len(),
        spec_fd_args(flag, fds)[2 * k] == flag,
        spec_fd_args(flag, fds)[2 * k + 1] == spec_decimal(fds[k] as int),
    decreases fds.len(),
{
    lemma_fd_args_len(flag, fds);
    lemma_fd_args_len(flag, fds.drop_first());
    if k > 0 {
        lemma_fd_args_index(flag, fds.drop_first(), k - 1);
    }
}

/// Two arguments per descriptor.
pub proof fn lemma_fd_args_len(flag: Seq<char>, fds: Seq<i32>)
    ensures
        spec_fd_args(flag, fds).len() == 2 * fds.len(),
    decreases fds.len(),
{
    if fds.len() > 0 {
        lemma_fd_args_len(flag, fds.drop_first());
    }
}

/// The command line of a task names every receive pipe and every send pipe: it
/// has four leading arguments and two per pipe; the `k`-th receive pipe is named
/// as `-R` and the decimal form of its write end, and the `k`-th send pipe as
/// `-S` and the decimal form of its read end.
pub proof fn lemma_launch_args_name_every_pipe(
    name: Seq<char>,
    rx: Seq<PipeFds>,
    tx: Seq<PipeFds>,
    k: int,
)
    ensures
        spec_launch_args(name, rx, tx).len() == 4 + 2 * rx.len() + 2 * tx.len(),
        spec_launch_args(name, rx, tx)[0] == "--command"@,
        spec_launch_args(name, rx, tx)[1] == "spawn"@,
        spec_launch_args(name, rx, tx)[2] == "--function"@,
        spec_launch_args(name, rx, tx)[3] == name,
        0 <= k < rx.len() ==> spec_launch_args(name, rx, tx)[4 + 2 * k] == "-R"@
            && spec_launch_args(name, rx, tx)[4 + 2 * k + 1] == spec_decimal(rx[k].write_fd as int),
        0 <= k < tx.len() ==> spec_launch_args(name, rx, tx)[4 + 2 * rx.len() + 2 * k] == "-S"@
            && spec_launch_args(name, rx, tx)[4 + 2 * rx.len() + 2 * k + 1] == spec_decimal(
            tx[k].read_fd as int,
        ),
{
    let rxw = rx.map_values(|c: PipeFds| c.write_fd);
    let txr = tx.map_values(|c: PipeFds| c.read_fd);
    let head = seq!["--command"@, "spawn"@, "--function"@, name];
    let r_args = spec_fd_args("-R"@, rxw);
    let s_args = spec_fd_args("-S"@, txr);
    lemma_fd_args_len("-R"@, rxw);
    lemma_fd_args_len("-S"@, txr);
    let args = spec_launch_args(name, rx, tx);
    assert(args =~= head + r_args + s_args);
    if 0 <= k < rx.len() {
        lemma_fd_args_index("-R"@, rxw, k);
        assert(args[4 + 2 * k] == r_args[2 * k]);
        assert(args[4 + 2 * k + 1] == r_args[2 * k + 1]);
    }
    if 0 <= k < tx.len() {
        lemma_fd_args_index("-S"@, txr, k);
        assert(args[4 + 2 * rx.len() + 2 * k] == s_args[2 * k]);
        assert(args[4 + 2 * rx.len() + 2 * k + 1] == s_args[2 * k + 1]);
    }
}

/// A task finds each pipe under the number it is told: the numbers named after
/// `-R` are the child sides of the first inherited descriptors, whose parent sides
/// are the read ends of the receive pipes, and the numbers named after `-S` are
/// the child sides of the rest, whose parent sides are the write ends of the send
/// pipes.
pub proof fn lemma_launch_names_inherited_fds(name: Seq<char>, rx: Seq<PipeFds>, tx: Seq<PipeFds>)
    ensures
        ({
            let maps = spec_fd_mappings(rx, tx);
            let rx_maps = maps.take(rx.len() as int);
            let tx_maps = maps.skip(rx.len() as int);
            &&& spec_launch_args(name, rx, tx) == seq!["--command"@, "spawn"@, "--function"@, name]
                + spec_fd_args("-R"@, rx_maps.map_values(|m: FdMap| m.child_fd)) + spec_fd_args(
                "-S"@,
                tx_maps.map_values(|m: FdMap| m.child_fd),
            )
            &&& rx_maps.map_values(|m: FdMap| m.parent_fd) == rx.map_values(|c: PipeFds| c.read_fd)
            &&& tx_maps.map_values(|m: FdMap| m.parent_fd) == tx.map_values(|c: PipeFds| c.write_fd)
        }),
{
    let maps = spec_fd_mappings(rx, tx);
    let rx_maps = maps.take(rx.len() as int);
    let tx_maps = maps.skip(rx.len() as int);
    assert(rx_maps.map_values(|m: FdMap| m.child_fd) =~= rx.map_values(|c: PipeFds| c.write_fd));
    assert(tx_maps.map_values(|m: FdMap| m.child_fd) =~= tx.map_values(|c: PipeFds| c.read_fd));
    assert(rx_maps.map_values(|m: FdMap| m.parent_fd) =~= rx.map_values(|c: PipeFds| c.read_fd));
    assert(tx_maps.map_values(|m: FdMap| m.parent_fd) =~= tx.map_values(|c: PipeFds| c.write_fd));
}

} // verus!
