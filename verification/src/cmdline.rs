//! Command-line quoting for relaunching the installer elevated, and the
//! `CommandLineToArgvW` reading rules that the quoting is proved against.
use vstd::prelude::*;
use crate::text::{chars_of, string_of};

verus! {

/// `n` backslashes.
pub open spec fn bs(n: nat) -> Seq<char> {
    Seq::new(n, |i: int| '\\')
}

/// An argument needs quotes when it is empty or holds a space, a tab or a
/// double quote.
pub open spec fn needs_quoting(x: Seq<char>) -> bool {
    x.len() == 0 || exists|i: int|
        0 <= i < x.len() && (#[trigger] x[i] == ' ' || x[i] == '\t' || x[i] == '"')
}

/// The quoted body of `x` when `b` backslashes are pending: a run of
/// backslashes is doubled (and one more added) before a double quote, and
/// doubled before the closing quote; elsewhere it is kept as is.
pub open spec fn q_body(x: Seq<char>, b: nat) -> Seq<char>
    decreases x.len(),
{
    if x.len() == 0 {
        bs(2 * b) + seq!['"']
    } else if x[0] == '\\' {
        q_body(x.skip(1), b + 1)
    } else if x[0] == '"' {
        bs(2 * b + 1) + seq!['"'] + q_body(x.skip(1), 0)
    } else {
        bs(b) + seq![x[0]] + q_body(x.skip(1), 0)
    }
}

/// How one argument is written on a Windows command line.
pub open spec fn quote_spec(x: Seq<char>) -> Seq<char> {
    if needs_quoting(x) {
        seq!['"'] + q_body(x, 0)
    } else {
        x
    }
}

fn push_backslashes(out: &mut Vec<char>, n: usize)
    ensures
        final(out)@ == old(out)@ + bs(n as nat),
{
    let mut i: usize = 0;
    while i < n
        invariant
            i <= n,
            out@ == old(out)@ + bs(i as nat),
        decreases n - i,
    {
        out.push('\\');
        i = i + 1;
        assert(out@ =~= old(out)@ + bs(i as nat));
    }
}

/// Writes one argument so that `CommandLineToArgvW` reads it back as it
/// was: unchanged when it needs no quotes, otherwise in double quotes with
/// backslashes and embedded quotes escaped.
pub fn quote_command_line_arg(arg: &str) -> (r: String)
    ensures
        r@ == quote_spec(arg@),
{
    let x = chars_of(arg);
    let mut needs = x.len() == 0;
    let mut k: usize = 0;
    while k < x.len()
        invariant
            k <= x@.len(),
            needs == (x@.len() == 0 || exists|i: int|
                0 <= i < k && (#[trigger] x@[i] == ' ' || x@[i] == '\t' || x@[i] == '"')),
        decreases x@.len() - k,
    {
        if x[k] == ' ' || x[k] == '\t' || x[k] == '"' {
            needs = true;
        }
        k = k + 1;
    }
    if !needs {
        return arg.to_owned();
    }
    let mut out: Vec<char> = Vec::new();
    out.push('"');
    let mut b: usize = 0;
    let mut i: usize = 0;
    assert(x@.skip(0) == x@);
    while i < x.len()
        invariant
            i <= x@.len(),
            b <= i,
            out@ + q_body(x@.skip(i as int), b as nat) == seq!['"'] + q_body(x@, 0),
        decreases x@.len() - i,
    {
        let c = x[i];
        let ghost rest = x@.skip(i as int);
        assert(rest[0] == c);
        assert(rest.skip(1) =~= x@.skip(i + 1));
        if c == '\\' {
            b = b + 1;
        } else if c == '"' {
            let ghost before = out@;
            push_backslashes(&mut out, b);
            push_backslashes(&mut out, b);
            out.push('\\');
            out.push('"');
            proof {
                lemma_bs_add(b as nat, b as nat);
                lemma_bs_add((2 * b) as nat, 1);
                assert(bs(1) =~= seq!['\\']);
            }
            assert(out@ =~= before + (bs((2 * b + 1) as nat) + seq!['"']));
            assert(before + q_body(rest, b as nat) =~= out@ + q_body(x@.skip(i + 1), 0));
            b = 0;
        } else {
            let ghost before = out@;
            push_backslashes(&mut out, b);
            out.push(c);
            assert(out@ =~= before + (bs(b as nat) + seq![c]));
            assert(before + q_body(rest, b as nat) =~= out@ + q_body(x@.skip(i + 1), 0));
            b = 0;
        }
        i = i + 1;
    }
    assert(x@.skip(i as int) =~= Seq::<char>::empty());
    let ghost before = out@;
    push_backslashes(&mut out, b);
    push_backslashes(&mut out, b);
    proof {
        lemma_bs_add(b as nat, b as nat);
    }
    out.push('"');
    assert(out@ =~= before + (bs((2 * b) as nat) + seq!['"']));
    string_of(out.as_slice())
}

/// The reading state of `CommandLineToArgvW`: the arguments so far, the
/// one being read, whether inside quotes, the pending backslashes, and
/// whether an argument has started.
pub struct ArgvState {
    pub args: Seq<Seq<char>>,
    pub current: Seq<char>,
    pub in_quotes: bool,
    pub backslashes: nat,
    pub started: bool,
}

/// The state before anything is read.
pub open spec fn argv_fresh(args: Seq<Seq<char>>) -> ArgvState {
    ArgvState { args, current: seq![], in_quotes: false, backslashes: 0, started: false }
}

/// Reading one character.
pub open spec fn argv_step(st: ArgvState, c: char) -> ArgvState {
    if c == '\\' {
        ArgvState { backslashes: st.backslashes + 1, started: true, ..st }
    } else if c == '"' {
        let cur = st.current + bs(st.backslashes / 2);
        if st.backslashes % 2 == 1 {
            ArgvState { current: cur.push('"'), backslashes: 0, started: true, ..st }
        } else {
            ArgvState { current: cur, in_quotes: !st.in_quotes, backslashes: 0, started: true, ..st }
        }
    } else if (c == ' ' || c == '\t') && !st.in_quotes {
        let cur = st.current + bs(st.backslashes);
        if st.started {
            ArgvState { args: st.args.push(cur), current: seq![], backslashes: 0, started: false, ..st }
        } else {
            ArgvState { current: cur, backslashes: 0, ..st }
        }
    } else {
        ArgvState {
            current: (st.current + bs(st.backslashes)).push(c),
            backslashes: 0,
            started: true,
            ..st
        }
    }
}

/// Reading a run of characters.
pub open spec fn argv_run(st: ArgvState, s: Seq<char>) -> ArgvState
    decreases s.len(),
{
    if s.len() == 0 {
        st
    } else {
        argv_run(argv_step(st, s[0]), s.skip(1))
    }
}

/// The arguments once the line ends.
pub open spec fn argv_finish(st: ArgvState) -> Seq<Seq<char>> {
    if st.started {
        st.args.push(st.current + bs(st.backslashes))
    } else {
        st.args
    }
}

/// The arguments `CommandLineToArgvW` reads from a line.
pub open spec fn argv_parse(line: Seq<char>) -> Seq<Seq<char>> {
    argv_finish(argv_run(argv_fresh(seq![]), line))
}

proof fn lemma_run_concat(st: ArgvState, a: Seq<char>, b: Seq<char>)
    ensures
        argv_run(st, a + b) == argv_run(argv_run(st, a), b),
    decreases a.len(),
{
    if a.len() == 0 {
        assert(a + b =~= b);
    } else {
        assert((a + b)[0] == a[0]);
        assert((a + b).skip(1) =~= a.skip(1) + b);
        lemma_run_concat(argv_step(st, a[0]), a.skip(1), b);
    }
}

proof fn lemma_run_one(st: ArgvState, c: char)
    ensures
        argv_run(st, seq![c]) == argv_step(st, c),
{
    assert(seq![c].skip(1) =~= Seq::<char>::empty());
    assert(argv_run(argv_step(st, c), Seq::<char>::empty()) == argv_step(st, c));
}

proof fn lemma_run_backslashes(st: ArgvState, n: nat)
    ensures
        argv_run(st, bs(n)) == (ArgvState {
            backslashes: st.backslashes + n,
            started: st.started || n > 0,
            ..st
        }),
    decreases n,
{
    if n > 0 {
        let s = bs(n);
        assert(s[0] == '\\');
        assert(s.skip(1) =~= bs((n - 1) as nat));
        lemma_run_backslashes(argv_step(st, '\\'), (n - 1) as nat);
    } else {
        assert(bs(n) =~= Seq::<char>::empty());
    }
}

proof fn lemma_bs_add(a: nat, b: nat)
    ensures
        bs(a) + bs(b) == bs(a + b),
{
    assert(bs(a) + bs(b) =~= bs(a + b));
}

/// Reading a quoted body inside quotes, with nothing pending, adds the
/// argument's characters (after `b` backslashes) and closes the quotes.
proof fn lemma_run_q_body(st: ArgvState, x: Seq<char>, b: nat)
    requires
        st.in_quotes,
        st.backslashes == 0,
        st.started,
    ensures
        argv_run(st, q_body(x, b)) == (ArgvState {
            current: st.current + bs(b) + x,
            in_quotes: false,
            ..st
        }),
    decreases x.len(),
{
    if x.len() == 0 {
        lemma_run_concat(st, bs(2 * b), seq!['"']);
        lemma_run_backslashes(st, 2 * b);
        let s1 = argv_run(st, bs(2 * b));
        lemma_run_one(s1, '"');
        assert((2 * b) / 2 == b) by (nonlinear_arith);
        assert((2 * b) % 2 == 0) by (nonlinear_arith);
        assert(seq!['"'].skip(1) =~= Seq::<char>::empty());
        assert(st.current + bs(b) + x =~= st.current + bs(b));
    } else if x[0] == '\\' {
        lemma_run_q_body(st, x.skip(1), b + 1);
        lemma_bs_add(b, 1);
        assert(bs(1) =~= seq!['\\']);
        assert(st.current + bs(b + 1) + x.skip(1) =~= st.current + bs(b) + x);
    } else if x[0] == '"' {
        let head = bs(2 * b + 1) + seq!['"'];
        assert(q_body(x, b) == head + q_body(x.skip(1), 0));
        lemma_run_concat(st, head, q_body(x.skip(1), 0));
        lemma_run_concat(st, bs(2 * b + 1), seq!['"']);
        lemma_run_backslashes(st, 2 * b + 1);
        assert((2 * b + 1) / 2 == b) by (nonlinear_arith);
        assert((2 * b + 1) % 2 == 1) by (nonlinear_arith);
        assert(seq!['"'].skip(1) =~= Seq::<char>::empty());
        let s2 = argv_run(st, head);
        lemma_run_one(argv_run(st, bs(2 * b + 1)), '"');
        assert(s2 == (ArgvState { current: (st.current + bs(b)).push('"'), ..st }));
        lemma_run_q_body(s2, x.skip(1), 0);
        assert(bs(0) =~= Seq::<char>::empty());
        assert((st.current + bs(b)).push('"') + bs(0) + x.skip(1) =~= st.current + bs(b) + x);
    } else {
        let c = x[0];
        let head = bs(b) + seq![c];
        assert(q_body(x, b) == head + q_body(x.skip(1), 0));
        lemma_run_concat(st, head, q_body(x.skip(1), 0));
        lemma_run_concat(st, bs(b), seq![c]);
        lemma_run_backslashes(st, b);
        assert(seq![c].skip(1) =~= Seq::<char>::empty());
        let s2 = argv_run(st, head);
        lemma_run_one(argv_run(st, bs(b)), c);
        assert(s2 == (ArgvState { current: (st.current + bs(b)).push(c), ..st }));
        lemma_run_q_body(s2, x.skip(1), 0);
        assert(bs(0) =~= Seq::<char>::empty());
        assert((st.current + bs(b)).push(c) + bs(0) + x.skip(1) =~= st.current + bs(b) + x);
    }
}

/// Reading an argument that needs no quotes, outside quotes, adds its
/// characters, with its trailing backslashes still pending.
proof fn lemma_run_plain(st: ArgvState, x: Seq<char>)
    requires
        !st.in_quotes,
        forall|i: int| 0 <= i < x.len() ==> #[trigger] x[i] != ' ' && x[i] != '\t' && x[i] != '"',
    ensures
        ({
            let r = argv_run(st, x);
            &&& r.args == st.args
            &&& !r.in_quotes
            &&& r.current + bs(r.backslashes) == st.current + bs(st.backslashes) + x
            &&& r.started == (st.started || x.len() > 0)
        }),
    decreases x.len(),
{
    if x.len() > 0 {
        let c = x[0];
        let s1 = argv_step(st, c);
        assert forall|i: int| 0 <= i < x.skip(1).len() implies #[trigger] x.skip(1)[i] != ' '
            && x.skip(1)[i] != '\t' && x.skip(1)[i] != '"' by {
            assert(x.skip(1)[i] == x[i + 1]);
        }
        lemma_run_plain(s1, x.skip(1));
        if c == '\\' {
            lemma_bs_add(st.backslashes, 1);
            assert(bs(1) =~= seq!['\\']);
            assert(st.current + bs(st.backslashes + 1) + x.skip(1) =~= st.current + bs(
                st.backslashes,
            ) + x);
        } else {
            assert(bs(0) =~= Seq::<char>::empty());
            assert((st.current + bs(st.backslashes)).push(c) + bs(0) + x.skip(1) =~= st.current
                + bs(st.backslashes) + x);
        }
    } else {
        assert(st.current + bs(st.backslashes) + x =~= st.current + bs(st.backslashes));
    }
}

/// Reading an opening quote and then a quoted body from a fresh state
/// leaves exactly the body's argument being read, outside quotes.
proof fn lemma_run_opened_body(args: Seq<Seq<char>>, x: Seq<char>)
    ensures
        ({
            let r = argv_run(argv_fresh(args), seq!['"'] + q_body(x, 0));
            &&& r.args == args
            &&& !r.in_quotes
            &&& r.started
            &&& r.current + bs(r.backslashes) == x
        }),
{
    let st = argv_fresh(args);
    lemma_run_concat(st, seq!['"'], q_body(x, 0));
    assert(seq!['"'].skip(1) =~= Seq::<char>::empty());
    let s1 = argv_run(st, seq!['"']);
    lemma_run_one(st, '"');
    assert(bs(0) =~= Seq::<char>::empty());
    assert(st.current + bs(0) =~= st.current);
    assert(s1 == (ArgvState { in_quotes: true, started: true, ..st }));
    lemma_run_q_body(s1, x, 0);
    assert(Seq::<char>::empty() + bs(0) + x =~= x);
}

/// Reading one written argument from a fresh state leaves exactly that
/// argument being read, outside quotes.
proof fn lemma_run_quoted_arg(args: Seq<Seq<char>>, x: Seq<char>)
    ensures
        ({
            let r = argv_run(argv_fresh(args), quote_spec(x));
            &&& r.args == args
            &&& !r.in_quotes
            &&& r.started
            &&& r.current + bs(r.backslashes) == x
        }),
{
    let st = argv_fresh(args);
    if needs_quoting(x) {
        lemma_run_opened_body(args, x);
    } else {
        assert forall|i: int| 0 <= i < x.len() implies #[trigger] x[i] != ' ' && x[i] != '\t' && x[i]
            != '"' by {
            if x[i] == ' ' || x[i] == '\t' || x[i] == '"' {
                assert(needs_quoting(x));
            }
        }
        lemma_run_plain(st, x);
        assert(bs(0) =~= Seq::<char>::empty());
        assert(Seq::<char>::empty() + bs(0) + x =~= x);
    }
}

/// Every argument survives quoting: `CommandLineToArgvW` reads the written
/// form of any argument back as exactly that one argument.
pub proof fn law_quote_round_trip(x: Seq<char>)
    ensures
        argv_parse(quote_spec(x)) == seq![x],
{
    lemma_run_quoted_arg(seq![], x);
}

/// The written arguments, separated by single spaces.
pub open spec fn joined_args(xs: Seq<Seq<char>>) -> Seq<char>
    decreases xs.len(),
{
    if xs.len() == 0 {
        seq![]
    } else if xs.len() == 1 {
        quote_spec(xs[0])
    } else {
        joined_args(xs.drop_last()) + seq![' '] + quote_spec(xs.last())
    }
}

/// The parameters the installer passes to its elevated copy: its own
/// arguments, each written for `CommandLineToArgvW`, separated by spaces.
pub fn relaunch_parameters(args: &Vec<String>) -> (r: String)
    ensures
        r@ == joined_args(crate::journal::strings_view(args@)),
{
    let ghost xs = crate::journal::strings_view(args@);
    let mut out: Vec<char> = Vec::new();
    let mut i: usize = 0;
    assert(xs.take(0) =~= Seq::<Seq<char>>::empty());
    while i < args.len()
        invariant
            i <= args@.len(),
            xs == crate::journal::strings_view(args@),
            out@ == joined_args(xs.take(i as int)),
        decreases args@.len() - i,
    {
        let q = quote_command_line_arg(args[i].as_str());
        let qc = chars_of(q.as_str());
        assert(xs[i as int] == args@[i as int]@);
        assert(xs.take(i + 1).drop_last() =~= xs.take(i as int));
        assert(xs.take(i + 1).last() == xs[i as int]);
        if i > 0 {
            out.push(' ');
        } else {
            assert(xs.take(1) =~= seq![xs[0]]);
        }
        crate::text::append_chars(&mut out, &qc);
        i = i + 1;
    }
    assert(xs.take(i as int) =~= xs);
    string_of(out.as_slice())
}

proof fn lemma_run_joined(xs: Seq<Seq<char>>)
    requires
        xs.len() > 0,
    ensures
        ({
            let r = argv_run(argv_fresh(seq![]), joined_args(xs));
            &&& r.args == xs.drop_last()
            &&& !r.in_quotes
            &&& r.started
            &&& r.current + bs(r.backslashes) == xs.last()
        }),
    decreases xs.len(),
{
    if xs.len() == 1 {
        lemma_run_quoted_arg(seq![], xs[0]);
        assert(xs.drop_last() =~= Seq::<Seq<char>>::empty());
    } else {
        let p = xs.drop_last();
        lemma_run_joined(p);
        let r1 = argv_run(argv_fresh(seq![]), joined_args(p));
        lemma_run_concat(argv_fresh(seq![]), joined_args(p) + seq![' '], quote_spec(xs.last()));
        lemma_run_concat(argv_fresh(seq![]), joined_args(p), seq![' ']);
        lemma_run_one(r1, ' ');
        let r2 = argv_step(r1, ' ');
        assert(p.drop_last().push(p.last()) =~= p);
        assert(r2 == argv_fresh(p));
        lemma_run_quoted_arg(p, xs.last());
    }
}

/// The elevated copy gets the installer's arguments back: reading the
/// relaunch parameters with `CommandLineToArgvW` gives exactly the
/// arguments, in order, whatever characters they hold.
pub proof fn law_relaunch_round_trip(xs: Seq<Seq<char>>)
    ensures
        argv_parse(joined_args(xs)) == xs,
{
    if xs.len() == 0 {
        assert(argv_run(argv_fresh(seq![]), Seq::<char>::empty()) == argv_fresh(seq![]));
    } else {
        lemma_run_joined(xs);
        let r = argv_run(argv_fresh(seq![]), joined_args(xs));
        assert(xs.drop_last().push(xs.last()) =~= xs);
    }
}

/// A path that stands in double quotes as it is: it holds no double quote
/// and does not end with a backslash (Windows file paths never hold `"`).
pub open spec fn quotable_path(x: Seq<char>) -> bool {
    &&& forall|i: int| 0 <= i < x.len() ==> #[trigger] x[i] != '"'
    &&& (x.len() == 0 || x.last() != '\\')
}

proof fn lemma_q_body_plain(x: Seq<char>, b: nat)
    requires
        forall|i: int| 0 <= i < x.len() ==> #[trigger] x[i] != '"',
        x.len() == 0 || x.last() != '\\',
        x.len() == 0 ==> b == 0,
    ensures
        q_body(x, b) == bs(b) + x + seq!['"'],
    decreases x.len(),
{
    assert(bs(0) =~= Seq::<char>::empty());
    if x.len() == 0 {
        assert(bs(b) + x + seq!['"'] =~= seq!['"']);
        assert(bs(2 * b) + seq!['"'] =~= seq!['"']);
    } else {
        let rest = x.skip(1);
        assert forall|i: int| 0 <= i < rest.len() implies #[trigger] rest[i] != '"' by {
            assert(rest[i] == x[i + 1]);
        }
        if rest.len() > 0 {
            assert(rest.last() == x.last());
        }
        if x[0] == '\\' {
            assert(x.len() > 1);
            lemma_q_body_plain(rest, b + 1);
            lemma_bs_add(b, 1);
            assert(bs(1) =~= seq!['\\']);
            assert(bs(b + 1) + rest + seq!['"'] =~= bs(b) + x + seq!['"']);
        } else {
            lemma_q_body_plain(rest, 0);
            assert(bs(b) + seq![x[0]] + (bs(0) + rest + seq!['"']) =~= bs(b) + x + seq!['"']);
        }
    }
}

/// Reading a path in double quotes from a fresh state leaves exactly the
/// path being read, outside quotes.
proof fn lemma_run_wrapped(args: Seq<Seq<char>>, x: Seq<char>)
    requires
        quotable_path(x),
    ensures
        ({
            let r = argv_run(argv_fresh(args), seq!['"'] + x + seq!['"']);
            &&& r.args == args
            &&& !r.in_quotes
            &&& r.started
            &&& r.current + bs(r.backslashes) == x
        }),
{
    lemma_q_body_plain(x, 0);
    assert(bs(0) =~= Seq::<char>::empty());
    assert(seq!['"'] + x + seq!['"'] =~= seq!['"'] + q_body(x, 0));
    lemma_run_opened_body(args, x);
}

/// A space after an argument, outside quotes, ends that argument.
proof fn lemma_space_ends_arg(r: ArgvState)
    requires
        !r.in_quotes,
        r.started,
    ensures
        argv_run(r, seq![' ']) == argv_fresh(r.args.push(r.current + bs(r.backslashes))),
{
    lemma_run_one(r, ' ');
}

/// Reads a word without spaces, tabs or quotes from a fresh state.
proof fn lemma_run_word(args: Seq<Seq<char>>, w: Seq<char>)
    requires
        w.len() > 0,
        forall|i: int| 0 <= i < w.len() ==> #[trigger] w[i] != ' ' && w[i] != '\t' && w[i] != '"',
    ensures
        ({
            let r = argv_run(argv_fresh(args), w);
            &&& r.args == args
            &&& !r.in_quotes
            &&& r.started
            &&& r.current + bs(r.backslashes) == w
        }),
{
    lemma_run_plain(argv_fresh(args), w);
    assert(bs(0) =~= Seq::<char>::empty());
    assert(Seq::<char>::empty() + bs(0) + w =~= w);
}

/// Installed Apps can run the uninstall it was given: for an uninstaller
/// and a journal whose paths hold no double quote and do not end with a
/// backslash, `CommandLineToArgvW` reads the registered command back as the
/// uninstaller, `uninstall`, the journal and `--elevate`.
pub proof fn law_uninstall_command_reads_back(exe: Seq<char>, journal: Seq<char>)
    requires
        quotable_path(exe),
        quotable_path(journal),
    ensures
        argv_parse(crate::install::uninstall_command_spec(exe, journal)) == seq![
            exe,
            "uninstall"@,
            journal,
            "--elevate"@,
        ],
{
    reveal_strlit("\"");
    reveal_strlit("\" uninstall \"");
    reveal_strlit("\" --elevate");
    reveal_strlit("uninstall");
    reveal_strlit("--elevate");
    let q = seq!['"'];
    let sp = seq![' '];
    let u = "uninstall"@;
    let e = "--elevate"@;
    let w1 = q + exe + q;
    let w2 = q + journal + q;
    let a1 = w1 + sp;
    let a2 = a1 + u;
    let a3 = a2 + sp;
    let a4 = a3 + w2;
    let a5 = a4 + sp;
    let line = a5 + e;
    assert(crate::install::uninstall_command_spec(exe, journal) =~= line);
    let s0 = argv_fresh(seq![]);
    lemma_run_wrapped(seq![], exe);
    let r1 = argv_run(s0, w1);
    lemma_run_concat(s0, w1, sp);
    lemma_space_ends_arg(r1);
    assert(argv_run(s0, a1) == argv_fresh(seq![exe]));
    assert forall|i: int| 0 <= i < u.len() implies #[trigger] u[i] != ' ' && u[i] != '\t' && u[i]
        != '"' by {}
    lemma_run_word(seq![exe], u);
    lemma_run_concat(s0, a1, u);
    let r3 = argv_run(argv_fresh(seq![exe]), u);
    lemma_run_concat(s0, a2, sp);
    lemma_space_ends_arg(r3);
    assert(seq![exe].push(u) =~= seq![exe, u]);
    assert(argv_run(s0, a3) == argv_fresh(seq![exe, u]));
    lemma_run_wrapped(seq![exe, u], journal);
    lemma_run_concat(s0, a3, w2);
    let r5 = argv_run(argv_fresh(seq![exe, u]), w2);
    lemma_run_concat(s0, a4, sp);
    lemma_space_ends_arg(r5);
    assert(seq![exe, u].push(journal) =~= seq![exe, u, journal]);
    assert(argv_run(s0, a5) == argv_fresh(seq![exe, u, journal]));
    assert forall|i: int| 0 <= i < e.len() implies #[trigger] e[i] != ' ' && e[i] != '\t' && e[i]
        != '"' by {}
    lemma_run_word(seq![exe, u, journal], e);
    lemma_run_concat(s0, a5, e);
    assert(seq![exe, u, journal].push(e) =~= seq![exe, u, journal, e]);
}

} // verus!
