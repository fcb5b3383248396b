//! Argument lists: building them, and keeping them on the central database.

use vstd::prelude::*;

use crate::text::{is_text, opt_text, starts_with, texts, texts_are_those_of_the_strings};

verus! {

/// A flag with its value, where there is a value.
pub open spec fn flag(name: Seq<char>, value: Option<Seq<char>>) -> Seq<Seq<char>> {
    match value {
        Some(v) => seq![name, v],
        None => Seq::empty(),
    }
}

/// Appends one argument.
pub fn push(args: &mut Vec<String>, arg: String)
    ensures
        texts(final(args)@) == texts(old(args)@).push(arg@),
{
    args.push(arg);
    assert(texts(args@) == texts(old(args)@).push(arg@));
}

/// Appends `name` and the value, where there is a value.
pub fn push_flag(args: &mut Vec<String>, name: &str, value: Option<String>)
    ensures
        texts(final(args)@) == texts(old(args)@) + flag(name@, opt_text(value)),
{
    match value {
        Some(v) => {
            push(args, name.to_owned());
            push(args, v);
            assert(texts(args@) == texts(old(args)@) + flag(name@, Some(v@)));
        },
        None => {
            assert(texts(args@) == texts(old(args)@) + flag(name@, None));
        },
    }
}

/// Whether an argument is an option that chooses a database.
pub open spec fn chooses_db(arg: Seq<char>) -> bool {
    ||| arg == "--db"@
    ||| arg == "--no-db"@
    ||| "--db="@.is_prefix_of(arg)
}

/// `args` without every option that chooses a database: `--db` goes together
/// with the argument after it, `--db=..` and `--no-db` go alone.
pub open spec fn without_db(args: Seq<Seq<char>>) -> Seq<Seq<char>>
    decreases args.len(),
{
    if args.len() == 0 {
        Seq::empty()
    } else if args[0] == "--db"@ {
        if args.len() == 1 {
            Seq::empty()
        } else {
            without_db(args.skip(2))
        }
    } else if chooses_db(args[0]) {
        without_db(args.skip(1))
    } else {
        seq![args[0]] + without_db(args.skip(1))
    }
}

/// Drops any caller-supplied `--db <val>`, `--db=<val>` and `--no-db`, so that
/// what is left chooses no database.
pub fn strip_db_args(args: Vec<String>) -> (out: Vec<String>)
    ensures
        texts(out@) == without_db(texts(args@)),
{
    let ghost all = texts(args@);
    let mut out: Vec<String> = Vec::new();
    let mut i: usize = 0;
    assert(all.skip(0) == all);
    assert(texts(out@) + without_db(all) == without_db(all));
    while i < args.len()
        invariant
            i <= args.len(),
            all == texts(args@),
            texts(out@) + without_db(all.skip(i as int)) == without_db(all),
        decreases args.len() - i,
    {
        let ghost rest = all.skip(i as int);
        assert(rest[0] == args@[i as int]@);
        assert(rest.skip(1) == all.skip(i + 1));
        let arg: &String = &args[i];
        if is_text(arg, "--db") {
            if args.len() - i == 1 {
                i = i + 1;
                assert(all.skip(i as int) == Seq::<Seq<char>>::empty());
            } else {
                assert(rest.skip(2) == all.skip(i + 2));
                i = i + 2;
            }
        } else if is_text(arg, "--no-db") || starts_with(arg.as_str(), "--db=") {
            i = i + 1;
        } else {
            let ghost before = texts(out@);
            push(&mut out, arg.clone());
            assert(texts(out@) + without_db(rest.skip(1)) == before + without_db(rest));
            i = i + 1;
        }
    }
    assert(all.skip(args.len() as int) == Seq::<Seq<char>>::empty());
    assert(texts(out@) == texts(out@) + without_db(Seq::<Seq<char>>::empty()));
    out
}

/// How many arguments stand before the first `--`: from there on nothing is
/// read as an option.
pub open spec fn options_end(args: Seq<Seq<char>>) -> int
    decreases args.len(),
{
    if args.len() == 0 || args[0] == "--"@ {
        0
    } else {
        1 + options_end(args.skip(1))
    }
}

/// The arguments with `--db` and the database `db` as the last of their
/// options.
pub open spec fn with_db(args: Seq<Seq<char>>, db: Seq<char>) -> Seq<Seq<char>> {
    let n = options_end(args);
    args.take(n) + seq!["--db"@, db] + args.skip(n)
}

/// Chooses the database `db`, before any `--`.
pub fn force_db(args: Vec<String>, db: &str) -> (out: Vec<String>)
    ensures
        texts(out@) == with_db(texts(args@), db@),
{
    let ghost all = texts(args@);
    let mut out: Vec<String> = Vec::new();
    let mut i: usize = 0;
    assert(all.skip(0) == all);
    assert(texts(out@) == all.take(0));
    while i < args.len() && !is_text(&args[i], "--")
        invariant
            i <= args.len(),
            all == texts(args@),
            texts(out@) == all.take(i as int),
            options_end(all) == i + options_end(all.skip(i as int)),
        decreases args.len() - i,
    {
        assert(all.skip(i as int)[0] == args@[i as int]@);
        assert(all.skip(i as int).skip(1) == all.skip(i + 1));
        push(&mut out, args[i].clone());
        assert(all.take(i + 1) == all.take(i as int).push(all[i as int]));
        i = i + 1;
    }
    proof {
        if i < args.len() {
            assert(all.skip(i as int)[0] == args@[i as int]@);
        }
        assert(options_end(all) == i);
    }
    let ghost n = i as int;
    push(&mut out, "--db".to_owned());
    push(&mut out, db.to_owned());
    let ghost head = all.take(n) + seq!["--db"@, db@];
    assert(texts(out@) == head + all.subrange(n, n));
    while i < args.len()
        invariant
            0 <= n <= i <= args.len(),
            all == texts(args@),
            texts(out@) == head + all.subrange(n, i as int),
        decreases args.len() - i,
    {
        let ghost before = all.subrange(n, i as int);
        push(&mut out, args[i].clone());
        assert(all.subrange(n, i + 1) == before.push(args@[i as int]@));
        assert(texts(out@) == head + all.subrange(n, i + 1));
        i = i + 1;
    }
    assert(all.subrange(n, all.len() as int) == all.skip(n));
    out
}

/// The options end where the first `--` stands, or with the arguments.
pub proof fn options_end_at_the_first_dashes(args: Seq<Seq<char>>)
    ensures
        0 <= options_end(args) <= args.len(),
        options_end(args) < args.len() ==> args[options_end(args)] == "--"@,
        forall|i: int| 0 <= i < options_end(args) ==> #[trigger] args[i] != "--"@,
    decreases args.len(),
{
    if args.len() > 0 && args[0] != "--"@ {
        let rest = args.skip(1);
        options_end_at_the_first_dashes(rest);
        assert forall|i: int| 0 <= i < options_end(args) implies #[trigger] args[i] != "--"@ by {
            if i > 0 {
                assert(args[i] == rest[i - 1]);
            }
        }
    }
}

/// What is left after stripping names no database.
pub proof fn stripped_args_choose_no_db(args: Seq<Seq<char>>)
    ensures
        forall|i: int|
            0 <= i < without_db(args).len() ==> !chooses_db(#[trigger] without_db(args)[i]),
    decreases args.len(),
{
    if args.len() == 0 {
    } else if args[0] == "--db"@ {
        if args.len() > 1 {
            stripped_args_choose_no_db(args.skip(2));
            assert(without_db(args) == without_db(args.skip(2)));
        }
    } else {
        let rest = without_db(args.skip(1));
        stripped_args_choose_no_db(args.skip(1));
        assert forall|i: int| 0 <= i < without_db(args).len() implies !chooses_db(
            #[trigger] without_db(args)[i],
        ) by {
            if chooses_db(args[0]) {
                assert(without_db(args) == rest);
            } else if i > 0 {
                assert(without_db(args)[i] == rest[i - 1]);
            }
        }
    }
}

/// Arguments that choose no database pass through unchanged.
pub proof fn args_without_db_are_kept(args: Seq<Seq<char>>)
    requires
        forall|i: int| 0 <= i < args.len() ==> !chooses_db(#[trigger] args[i]),
    ensures
        without_db(args) == args,
    decreases args.len(),
{
    if args.len() > 0 {
        assert(!chooses_db(args[0]));
        assert forall|i: int| 0 <= i < args.skip(1).len() implies !chooses_db(
            #[trigger] args.skip(1)[i],
        ) by {
            assert(args.skip(1)[i] == args[i + 1]);
        }
        args_without_db_are_kept(args.skip(1));
        assert(seq![args[0]] + args.skip(1) == args);
    }
}

/// Stripping twice is stripping once.
pub proof fn stripping_is_idempotent(args: Seq<Seq<char>>)
    ensures
        without_db(without_db(args)) == without_db(args),
{
    stripped_args_choose_no_db(args);
    args_without_db_are_kept(without_db(args));
}

/// Arguments that end with no dangling `--db` are stripped on their own.
pub proof fn args_are_stripped_in_parts(before: Seq<Seq<char>>, after: Seq<Seq<char>>)
    requires
        before.len() > 0 ==> before.last() != "--db"@,
    ensures
        without_db(before + after) == without_db(before) + without_db(after),
    decreases before.len(),
{
    let whole = before + after;
    if before.len() == 0 {
        assert(whole == after);
    } else {
        let k = if before[0] == "--db"@ {
            2int
        } else {
            1int
        };
        assert(whole[0] == before[0]);
        assert(whole.skip(k) == before.skip(k) + after);
        args_are_stripped_in_parts(before.skip(k), after);
        assert(without_db(whole) == without_db(before) + without_db(after));
    }
}

/// A database that is chosen, in any form and in any place, leaves no trace.
pub proof fn db_choices_are_dropped(
    before: Seq<Seq<char>>,
    db: Seq<char>,
    after: Seq<Seq<char>>,
)
    requires
        before.len() > 0 ==> before.last() != "--db"@,
    ensures
        without_db(before + seq!["--db"@, db] + after) == without_db(before + after),
        without_db(before + seq!["--db="@ + db] + after) == without_db(before + after),
        without_db(before + seq!["--no-db"@] + after) == without_db(before + after),
{
    let apart = seq!["--db"@, db] + after;
    let glued = seq!["--db="@ + db] + after;
    let none = seq!["--no-db"@] + after;
    assert(before + seq!["--db"@, db] + after == before + apart);
    assert(before + seq!["--db="@ + db] + after == before + glued);
    assert(before + seq!["--no-db"@] + after == before + none);
    args_are_stripped_in_parts(before, apart);
    args_are_stripped_in_parts(before, glued);
    args_are_stripped_in_parts(before, none);
    args_are_stripped_in_parts(before, after);
    assert(apart.skip(2) == after);
    assert(glued.skip(1) == after);
    assert(none.skip(1) == after);
    assert("--db"@ != "--db="@ + db && "--db"@ != "--no-db"@) by {
        reveal_strlit("--db");
        reveal_strlit("--db=");
        reveal_strlit("--no-db");
        assert("--db"@.len() == 4 && "--db="@.len() == 5 && "--no-db"@.len() == 7);
    }
    assert(chooses_db("--db="@ + db)) by {
        assert(("--db="@ + db).subrange(0, "--db="@.len() as int) == "--db="@);
    }
}

/// A flag that has a value is followed by it, at the end of the arguments, and
/// one that has none leaves no trace.
pub proof fn flags_are_followed_by_their_value(name: &str, value: Option<String>)
    ensures
        forall|args: &mut Vec<String>|
            #![trigger call_ensures(push_flag, (args, name, value), ())]
            call_ensures(push_flag, (args, name, value), ()) ==> {
                let before = (*args)@;
                let after = (*final(args))@;
                &&& forall|i: int| 0 <= i < before.len() ==> (#[trigger] after[i])@ == before[i]@
                &&& value is None ==> after.len() == before.len()
                &&& value matches Some(v) ==> {
                    &&& after.len() == before.len() + 2
                    &&& after[after.len() - 2]@ == name@
                    &&& after[after.len() - 1]@ == v@
                }
            },
{
    assert forall|args: &mut Vec<String>|
        #![trigger call_ensures(push_flag, (args, name, value), ())]
        call_ensures(push_flag, (args, name, value), ()) implies {
        let before = (*args)@;
        let after = (*final(args))@;
        &&& forall|i: int| 0 <= i < before.len() ==> (#[trigger] after[i])@ == before[i]@
        &&& value is None ==> after.len() == before.len()
        &&& value matches Some(v) ==> {
            &&& after.len() == before.len() + 2
            &&& after[after.len() - 2]@ == name@
            &&& after[after.len() - 1]@ == v@
        }
    } by {
        let before = (*args)@;
        let after = (*final(args))@;
        texts_are_those_of_the_strings(before);
        texts_are_those_of_the_strings(after);
        assert(texts(after) == texts(before) + flag(name@, opt_text(value)));
        assert forall|i: int| 0 <= i < before.len() implies (#[trigger] after[i])@ == before[i]@ by {
            assert(texts(after)[i] == texts(before)[i]);
        }
        if value is Some {
            assert(texts(after)[after.len() - 2] == name@);
            assert(texts(after)[after.len() - 1] == value->0@);
        }
    }
}

/// Stripping takes the arguments one after another. An argument that is neither
/// `--db` nor `--no-db` and does not begin with `--db=` is kept; `--db` goes
/// together with the argument after it, where there is one; the other two go
/// alone. `rest` is what follows them.
pub proof fn arguments_are_stripped_one_after_another(
    args: Vec<String>,
    out: Vec<String>,
    rest: Vec<String>,
    rest_out: Vec<String>,
)
    requires
        args@.len() > 0,
        rest@ == (if args@[0]@ == "--db"@ && args@.len() > 1 {
            args@.skip(2)
        } else {
            args@.skip(1)
        }),
        call_ensures(strip_db_args, (args,), out),
        call_ensures(strip_db_args, (rest,), rest_out),
    ensures
        ({
            let first = args@[0]@;
            let kept: int = if first == "--db"@ || first == "--no-db"@ || "--db="@.is_prefix_of(
                first,
            ) {
                0
            } else {
                1
            };
            &&& out@.len() == rest_out@.len() + kept
            &&& kept == 1 ==> out@[0]@ == first
            &&& forall|i: int|
                0 <= i < rest_out@.len() ==> out@[i + kept]@ == (#[trigger] rest_out@[i])@
        }),
        args@.len() == 1 ==> rest_out@.len() == 0,
{
    let all = texts(args@);
    let first = args@[0]@;
    let kept: int = if first == "--db"@ || first == "--no-db"@ || "--db="@.is_prefix_of(first) {
        0
    } else {
        1
    };
    assert(all[0] == first);
    if first == "--db"@ && args@.len() > 1 {
        assert(texts(rest@) == all.skip(2));
    } else {
        assert(texts(rest@) == all.skip(1));
        if args@.len() == 1 {
            assert(all.skip(1) == Seq::<Seq<char>>::empty());
        }
    }
    texts_are_those_of_the_strings(out@);
    texts_are_those_of_the_strings(rest_out@);
    assert(texts(out@) == without_db(all));
    assert(texts(rest_out@) == without_db(texts(rest@)));
    if kept == 1 {
        assert(texts(out@)[0] == first);
    }
    assert forall|i: int| 0 <= i < rest_out@.len() implies out@[i + kept]@ == (
        #[trigger] rest_out@[i])@ by {
        assert(texts(out@)[i + kept] == texts(rest_out@)[i]);
    }
}

/// No arguments are stripped to none, and nothing that is left is `--db` or
/// `--no-db` or begins with `--db=`.
pub proof fn what_is_left_names_no_db(args: Vec<String>, out: Vec<String>)
    requires
        call_ensures(strip_db_args, (args,), out),
    ensures
        args@.len() == 0 ==> out@.len() == 0,
        forall|i: int|
            0 <= i < out@.len() ==> (#[trigger] out@[i])@ != "--db"@ && out@[i]@ != "--no-db"@
                && !"--db="@.is_prefix_of(out@[i]@),
{
    texts_are_those_of_the_strings(args@);
    texts_are_those_of_the_strings(out@);
    stripped_args_choose_no_db(texts(args@));
    assert forall|i: int| 0 <= i < out@.len() implies (#[trigger] out@[i])@ != "--db"@ && out@[i]@
        != "--no-db"@ && !"--db="@.is_prefix_of(out@[i]@) by {
        assert(!chooses_db(texts(out@)[i]));
    }
}

/// The database is chosen right before the first `--`, which is the argument at
/// `n`, or at the end where there is none; all other arguments stay, in their
/// order.
pub proof fn the_db_is_chosen_before_the_dashes(
    args: Vec<String>,
    db: &str,
    out: Vec<String>,
    n: int,
)
    requires
        call_ensures(force_db, (args, db), out),
        0 <= n <= args@.len(),
        n < args@.len() ==> args@[n]@ == "--"@,
        forall|i: int| 0 <= i < n ==> (#[trigger] args@[i])@ != "--"@,
    ensures
        out@.len() == args@.len() + 2,
        forall|i: int| 0 <= i < n ==> (#[trigger] out@[i])@ == args@[i]@,
        out@[n]@ == "--db"@,
        out@[n + 1]@ == db@,
        forall|i: int| n <= i < args@.len() ==> out@[i + 2]@ == (#[trigger] args@[i])@,
{
    let all = texts(args@);
    texts_are_those_of_the_strings(args@);
    texts_are_those_of_the_strings(out@);
    options_end_at_the_first_dashes(all);
    assert(options_end(all) == n) by {
        let m = options_end(all);
        if m < n {
            assert(args@[m]@ != "--"@);
            assert(all[m] == args@[m]@);
        } else if n < m {
            assert(all[n] == args@[n]@);
        }
    }
    assert(texts(out@) == all.take(n) + seq!["--db"@, db@] + all.skip(n));
    assert forall|i: int| 0 <= i < n implies (#[trigger] out@[i])@ == args@[i]@ by {
        assert(texts(out@)[i] == all[i]);
    }
    assert(texts(out@)[n] == "--db"@);
    assert(texts(out@)[n + 1] == db@);
    assert forall|i: int| n <= i < args@.len() implies out@[i + 2]@ == (#[trigger] args@[i])@ by {
        assert(texts(out@)[i + 2] == all[i]);
    }
}

} // verus!
