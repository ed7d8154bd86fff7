//! The `wc` builtin: counts lines, words and bytes of each argument (`-`
//! stands for the stage's input; with no arguments `-` is implied), writes
//! one aligned row per argument and a total row when there are several.
//! Opening files is outside work: the stage counts over the bytes handed in.

use vstd::prelude::*;

use crate::NEWLINE;
use crate::SPACE;

verus! {

/// A byte that separates words: the space and the line feed.
pub open spec fn wc_is_space(b: u8) -> bool {
    b == SPACE || b == NEWLINE
}

/// Line count: the number of line feeds.
pub open spec fn wc_lines(s: Seq<u8>) -> nat
    decreases s.len(),
{
    if s.len() == 0 {
        0
    } else {
        wc_lines(s.drop_last()) + if s.last() == NEWLINE {
            1nat
        } else {
            0nat
        }
    }
}

/// Word count: the number of maximal runs of non-separator bytes, counted at
/// each byte that starts a run.
pub open spec fn wc_words(s: Seq<u8>) -> nat
    decreases s.len(),
{
    if s.len() == 0 {
        0
    } else {
        wc_words(s.drop_last()) + if !wc_is_space(s.last()) && (s.len() == 1 || wc_is_space(
            s[s.len() - 2],
        )) {
            1nat
        } else {
            0nat
        }
    }
}

/// The three counters of one `wc` row.
pub struct Stat {
    pub lines: usize,
    pub words: usize,
    pub bytes: usize,
}

/// The `wc` stage, holding its argument words.
pub struct WcCmd {
    args: Vec<Vec<u8>>,
}

impl View for WcCmd {
    type V = Seq<Seq<u8>>;

    closed spec fn view(&self) -> Seq<Seq<u8>> {
        crate::cmd::args_view(self.args@)
    }
}

impl WcCmd {
    pub fn new(args: Vec<Vec<u8>>) -> (r: Self)
        ensures
            r@ == crate::cmd::args_view(args@),
    {
        Self { args }
    }

    /// Count lines, words and bytes of one datum.
    pub fn get_stat(data: &Vec<u8>) -> (r: Stat)
        ensures
            r.lines == wc_lines(data@),
            r.words == wc_words(data@),
            r.bytes == data@.len(),
    {
        let n = data.len();
        let mut lines: usize = 0;
        let mut words: usize = 0;
        let mut is_space = true;
        let mut i: usize = 0;
        while i < n
            invariant
                n == data@.len(),
                0 <= i <= n,
                lines == wc_lines(data@.subrange(0, i as int)),
                words == wc_words(data@.subrange(0, i as int)),
                lines <= i,
                words <= i,
                is_space == (i == 0 || wc_is_space(data@[i - 1])),
            decreases n - i,
        {
            let b = data[i];
            if b == NEWLINE {
                lines += 1;
            }
            if !(b == SPACE || b == NEWLINE) && is_space {
                words += 1;
            }
            is_space = b == SPACE || b == NEWLINE;
            i += 1;
            proof {
                let s = data@.subrange(0, i as int);
                assert(s.drop_last() =~= data@.subrange(0, i - 1));
                assert(s.last() == data@[i - 1]);
                if i >= 2 {
                    assert(s[s.len() - 2] == data@[i - 2]);
                }
            }
        }
        proof {
            assert(data@.subrange(0, n as int) =~= data@);
        }
        Stat { lines, words, bytes: n }
    }

    /// One row of `wc` output: the three counters, each right-aligned to
    /// `width`, separated by single spaces.
    pub fn write_stat(stat: &Stat, width: usize) -> (r: Vec<u8>)
        ensures
            r@ == wc_row(stat.lines as nat, stat.words as nat, stat.bytes as nat, width as nat),
    {
        let mut out = format_number(stat.lines, width);
        out.push(SPACE);
        let mut w = format_number(stat.words, width);
        out.append(&mut w);
        out.push(SPACE);
        let mut b = format_number(stat.bytes, width);
        out.append(&mut b);
        proof {
            assert(out@ =~= wc_row(
                stat.lines as nat,
                stat.words as nat,
                stat.bytes as nat,
                width as nat,
            ));
        }
        out
    }

    /// The effective argument list: each entry is a file path to read, or `-`
    /// for the stage's input.
    pub fn sources(&self) -> (r: Vec<Vec<u8>>)
        ensures
            crate::cmd::args_view(r@) == crate::cmd::cat::cat_effective_args(self@),
    {
        if self.args.len() == 0 {
            let d = crate::cmd::cat::dash_vec();
            let mut r: Vec<Vec<u8>> = Vec::new();
            proof {
                crate::cmd::lemma_args_view_push(r@, d);
            }
            r.push(d);
            proof {
                assert(crate::cmd::args_view(r@) =~= crate::cmd::cat::cat_effective_args(self@));
            }
            r
        } else {
            crate::cmd::cat::clone_args(&self.args)
        }
    }

    /// Count every effective argument and format the rows, from the stage
    /// input and one read result per argument. The result is the first failed
    /// read, or the aligned rows with a `total` row when there are several
    /// arguments.
    pub fn run(&self, input: &Vec<u8>, data: &Vec<Result<Vec<u8>, Vec<u8>>>) -> (r: Result<
        Vec<u8>,
        Vec<u8>,
    >)
        requires
            data@.len() == crate::cmd::cat::cat_effective_args(self@).len(),
            wc_sum_bytes(
                crate::cmd::cat::cat_effective_args(self@),
                input@,
                crate::cmd::cat::data_values(data@),
            ) <= usize::MAX,
            wc_file_bytes(
                crate::cmd::cat::cat_effective_args(self@),
                crate::cmd::cat::data_values(data@),
            ) <= usize::MAX,
        ensures
            crate::cmd::cat::result_view(r) == wc_result(
                crate::cmd::cat::cat_effective_args(self@),
                input@,
                crate::cmd::cat::data_values(data@),
            ),
    {
        let srcs = self.sources();
        let n = srcs.len();
        let ghost av = crate::cmd::args_view(srcs@);
        let ghost dv = crate::cmd::cat::data_values(data@);
        let mut total: usize = 0;
        let mut has_dash = false;
        let mut i: usize = 0;
        proof {
            assert(av.skip(0) =~= av);
            assert(dv.skip(0) =~= dv);
        }
        while i < n
            invariant
                n == srcs.len(),
                data@.len() == n,
                av == crate::cmd::args_view(srcs@),
                av == crate::cmd::cat::cat_effective_args(self@),
                dv == crate::cmd::cat::data_values(data@),
                0 <= i <= n,
                wc_first_err(av.skip(i as int), dv.skip(i as int)) == wc_first_err(av, dv),
                total + wc_file_bytes(av.skip(i as int), dv.skip(i as int)) == wc_file_bytes(
                    av,
                    dv,
                ),
                wc_file_bytes(av, dv) <= usize::MAX,
                has_dash == exists|j: int|
                    0 <= j < i && av[j] == crate::cmd::cat::dash(),
            decreases n - i,
        {
            proof {
                assert(av.skip(i as int)[0] == av[i as int]);
                assert(dv.skip(i as int)[0] == dv[i as int]);
                assert(av.skip(i as int).drop_first() =~= av.skip(i + 1));
                assert(dv.skip(i as int).drop_first() =~= dv.skip(i + 1));
            }
            if crate::env::bytes_eq(&srcs[i], &crate::cmd::cat::dash_vec()) {
                has_dash = true;
                i += 1;
                proof {
                    assert(av[i - 1] == crate::cmd::cat::dash());
                }
            } else {
                match &data[i] {
                    Err(e) => {
                        let m = e.clone();
                        proof {
                            assert(m@ =~= e@);
                            assert(av[i as int] == srcs@[i as int]@);
                            assert(av[i as int] != crate::cmd::cat::dash());
                            assert(dv[i as int] == Err::<Seq<u8>, Seq<u8>>(e@));
                            assert(wc_first_err(av.skip(i as int), dv.skip(i as int)) == Some(e@));
                        }
                        return Err(m);
                    },
                    Ok(d) => {
                        total += d.len();
                        i += 1;
                        proof {
                            assert(dv[i - 1] == Ok::<Seq<u8>, Seq<u8>>(d@));
                        }
                    },
                }
            }
        }
        proof {
            assert(av.skip(n as int) =~= Seq::<Seq<u8>>::empty());
            assert(dv.skip(n as int) =~= Seq::<Result<Seq<u8>, Seq<u8>>>::empty());
            assert(has_dash == wc_has_dash(av));
            assert(total == wc_file_bytes(av, dv));
        }
        let width = Self::compute_number_width(has_dash, total);
        let mut out: Vec<u8> = Vec::new();
        let mut tl: usize = 0;
        let mut tw: usize = 0;
        let mut tb: usize = 0;
        let mut used_input = false;
        let mut i: usize = 0;
        proof {
            assert(av.skip(0) =~= av);
            assert(dv.skip(0) =~= dv);
            lemma_wc_sums_le(av, input@, dv);
        }
        while i < n
            invariant
                n == srcs.len(),
                data@.len() == n,
                av == crate::cmd::args_view(srcs@),
                av == crate::cmd::cat::cat_effective_args(self@),
                dv == crate::cmd::cat::data_values(data@),
                0 <= i <= n,
                width as nat == wc_width(wc_has_dash(av), wc_file_bytes(av, dv)),
                wc_first_err(av.skip(i as int), dv.skip(i as int)) is None,
                ({
                    let cur: Seq<u8> = if used_input {
                        Seq::empty()
                    } else {
                        input@
                    };
                    &&& out@ + wc_rows(av.skip(i as int), cur, dv.skip(i as int), width as nat)
                        == wc_rows(av, input@, dv, width as nat)
                    &&& tl + wc_sum_lines(av.skip(i as int), cur, dv.skip(i as int))
                        == wc_sum_lines(av, input@, dv)
                    &&& tw + wc_sum_words(av.skip(i as int), cur, dv.skip(i as int))
                        == wc_sum_words(av, input@, dv)
                    &&& tb + wc_sum_bytes(av.skip(i as int), cur, dv.skip(i as int))
                        == wc_sum_bytes(av, input@, dv)
                }),
                wc_sum_lines(av, input@, dv) <= wc_sum_bytes(av, input@, dv),
                wc_sum_words(av, input@, dv) <= wc_sum_bytes(av, input@, dv),
                wc_sum_bytes(av, input@, dv) <= usize::MAX,
            decreases n - i,
        {
            let ghost out0 = out@;
            let ghost cur0: Seq<u8> = if used_input {
                Seq::empty()
            } else {
                input@
            };
            proof {
                assert(av.skip(i as int)[0] == av[i as int]);
                assert(dv.skip(i as int)[0] == dv[i as int]);
                assert(av.skip(i as int).drop_first() =~= av.skip(i + 1));
                assert(dv.skip(i as int).drop_first() =~= dv.skip(i + 1));
            }
            let stat = if crate::env::bytes_eq(&srcs[i], &crate::cmd::cat::dash_vec()) {
                let s = if !used_input {
                    Self::get_stat(input)
                } else {
                    Stat { lines: 0, words: 0, bytes: 0 }
                };
                used_input = true;
                proof {
                    assert(wc_lines(Seq::<u8>::empty()) == 0);
                    assert(wc_words(Seq::<u8>::empty()) == 0);
                    assert(wc_datum(av[i as int], cur0, dv[i as int]) == cur0);
                }
                s
            } else {
                match &data[i] {
                    Ok(f) => {
                        proof {
                            assert(dv[i as int] == Ok::<Seq<u8>, Seq<u8>>(f@));
                        }
                        Self::get_stat(f)
                    },
                    Err(_) => {
                        proof {
                            assert(dv[i as int] is Err);
                            assert(false);
                        }
                        Stat { lines: 0, words: 0, bytes: 0 }
                    },
                }
            };
            let mut row = Self::write_stat(&stat, width);
            out.append(&mut row);
            out.push(SPACE);
            let mut a = srcs[i].clone();
            proof {
                assert(a@ =~= av[i as int]);
            }
            out.append(&mut a);
            out.push(NEWLINE);
            tl += stat.lines;
            tw += stat.words;
            tb += stat.bytes;
            i += 1;
            proof {
                let cur: Seq<u8> = if used_input {
                    Seq::empty()
                } else {
                    input@
                };
                let h = wc_arg_row(av[i - 1], cur0, dv[i - 1], width as nat);
                assert(out@ =~= out0 + h);
                match wc_rows(av.skip(i as int), cur, dv.skip(i as int), width as nat) {
                    rest => {
                        assert(out0 + h + rest =~= out0 + (h + rest));
                    },
                }
            }
        }
        proof {
            assert(av.skip(n as int) =~= Seq::<Seq<u8>>::empty());
            assert(dv.skip(n as int) =~= Seq::<Result<Seq<u8>, Seq<u8>>>::empty());
            assert(out@ + Seq::<u8>::empty() =~= out@);
        }
        if n > 1 {
            let total_stat = Stat { lines: tl, words: tw, bytes: tb };
            let mut trow = Self::write_stat(&total_stat, width);
            out.append(&mut trow);
            out.push(SPACE);
            let mut tword = total_vec();
            out.append(&mut tword);
            out.push(NEWLINE);
            proof {
                assert(out@ =~= wc_rows(av, input@, dv, width as nat) + wc_row(
                    wc_sum_lines(av, input@, dv),
                    wc_sum_words(av, input@, dv),
                    wc_sum_bytes(av, input@, dv),
                    width as nat,
                ) + seq![SPACE] + total_word() + seq![NEWLINE]);
            }
        }
        Ok(out)
    }

    /// The alignment width for the rows: wide enough for the total byte size
    /// of the regular files, at least 7 when the stage's input is counted,
    /// and at least 1 always.
    pub fn compute_number_width(has_input_arg: bool, regular_total: usize) -> (r: usize)
        ensures
            r as nat == wc_width(has_input_arg, regular_total as nat),
    {
        let minimum_width: usize = if has_input_arg {
            7
        } else {
            1
        };
        let mut width: usize = 1;
        let mut rest: usize = regular_total;
        proof {
            lemma_dec_digits_max(regular_total);
        }
        while 10 <= rest
            invariant
                1 <= width,
                dec_digits(regular_total as nat) == dec_digits(rest as nat) + width - 1,
                dec_digits(regular_total as nat) <= 20,
            decreases rest,
        {
            proof {
                lemma_dec_digits_bound(rest as nat);
                lemma_dec_digits_bound((rest / 10) as nat);
            }
            rest = rest / 10;
            width += 1;
        }
        proof {
            lemma_dec_digits_bound(rest as nat);
            assert(width == dec_digits(regular_total as nat));
        }
        if width < minimum_width {
            minimum_width
        } else {
            width
        }
    }
}

/// The datum one `wc` argument counts: the stage input for `-`, the file's
/// contents otherwise; a failed read reads as empty and is never consulted
/// where the result matters.
pub open spec fn wc_datum(arg: Seq<u8>, input: Seq<u8>, datum: Result<Seq<u8>, Seq<u8>>) -> Seq<
    u8,
> {
    if arg == crate::cmd::cat::dash() {
        input
    } else {
        match datum {
            Ok(v) => v,
            Err(_) => Seq::empty(),
        }
    }
}

/// The first failed read among the file arguments, in argument order: the
/// error `wc` reports before writing anything.
pub open spec fn wc_first_err(
    args: Seq<Seq<u8>>,
    data: Seq<Result<Seq<u8>, Seq<u8>>>,
) -> Option<Seq<u8>>
    decreases args.len(),
{
    if args.len() == 0 {
        None
    } else if args[0] == crate::cmd::cat::dash() {
        wc_first_err(args.drop_first(), data.drop_first())
    } else {
        match data[0] {
            Err(m) => Some(m),
            Ok(_) => wc_first_err(args.drop_first(), data.drop_first()),
        }
    }
}

/// The total byte size of the regular-file arguments: what sets the column
/// width.
pub open spec fn wc_file_bytes(args: Seq<Seq<u8>>, data: Seq<Result<Seq<u8>, Seq<u8>>>) -> nat
    decreases args.len(),
{
    if args.len() == 0 {
        0
    } else {
        (if args[0] == crate::cmd::cat::dash() {
            0nat
        } else {
            match data[0] {
                Ok(v) => v.len(),
                Err(_) => 0nat,
            }
        }) + wc_file_bytes(args.drop_first(), data.drop_first())
    }
}

/// Whether any argument is `-`, so that the stage input is counted.
pub open spec fn wc_has_dash(args: Seq<Seq<u8>>) -> bool {
    exists|j: int| 0 <= j < args.len() && args[j] == crate::cmd::cat::dash()
}

/// The input stream left for the arguments after this one: the first `-`
/// reads it to its end, so later arguments find it exhausted.
pub open spec fn wc_rest_input(arg: Seq<u8>, input: Seq<u8>) -> Seq<u8> {
    if arg == crate::cmd::cat::dash() {
        Seq::empty()
    } else {
        input
    }
}

/// The summed line counts of all counted data.
pub open spec fn wc_sum_lines(
    args: Seq<Seq<u8>>,
    input: Seq<u8>,
    data: Seq<Result<Seq<u8>, Seq<u8>>>,
) -> nat
    decreases args.len(),
{
    if args.len() == 0 {
        0
    } else {
        wc_lines(wc_datum(args[0], input, data[0])) + wc_sum_lines(
            args.drop_first(),
            wc_rest_input(args[0], input),
            data.drop_first(),
        )
    }
}

/// The summed word counts of all counted data.
pub open spec fn wc_sum_words(
    args: Seq<Seq<u8>>,
    input: Seq<u8>,
    data: Seq<Result<Seq<u8>, Seq<u8>>>,
) -> nat
    decreases args.len(),
{
    if args.len() == 0 {
        0
    } else {
        wc_words(wc_datum(args[0], input, data[0])) + wc_sum_words(
            args.drop_first(),
            wc_rest_input(args[0], input),
            data.drop_first(),
        )
    }
}

/// The summed byte counts of all counted data; the stage input is consumed by
/// the first `-`.
pub open spec fn wc_sum_bytes(
    args: Seq<Seq<u8>>,
    input: Seq<u8>,
    data: Seq<Result<Seq<u8>, Seq<u8>>>,
) -> nat
    decreases args.len(),
{
    if args.len() == 0 {
        0
    } else {
        wc_datum(args[0], input, data[0]).len() + wc_sum_bytes(
            args.drop_first(),
            wc_rest_input(args[0], input),
            data.drop_first(),
        )
    }
}

/// The word `total`.
pub open spec fn total_word() -> Seq<u8> {
    seq![116u8, 111u8, 116u8, 97u8, 108u8]
}

/// One argument's output line: the three aligned counters, a space, the
/// argument, a line feed.
pub open spec fn wc_arg_row(
    arg: Seq<u8>,
    input: Seq<u8>,
    datum: Result<Seq<u8>, Seq<u8>>,
    width: nat,
) -> Seq<u8> {
    let d = wc_datum(arg, input, datum);
    wc_row(wc_lines(d), wc_words(d), d.len(), width) + seq![SPACE] + arg + seq![NEWLINE]
}

/// The per-argument output lines, in order; the stage input is consumed by
/// the first `-`, so a later `-` counts an exhausted stream.
pub open spec fn wc_rows(
    args: Seq<Seq<u8>>,
    input: Seq<u8>,
    data: Seq<Result<Seq<u8>, Seq<u8>>>,
    width: nat,
) -> Seq<u8>
    decreases args.len(),
{
    if args.len() == 0 {
        Seq::empty()
    } else {
        wc_arg_row(args[0], input, data[0], width) + wc_rows(
            args.drop_first(),
            wc_rest_input(args[0], input),
            data.drop_first(),
            width,
        )
    }
}

/// What `wc` produces for its effective arguments, the stage input, and one
/// read result per argument: the first failed read, or one aligned row per
/// argument followed — when there are several — by a `total` row, all at the
/// width that the regular files' total size sets.
pub open spec fn wc_result(
    args: Seq<Seq<u8>>,
    input: Seq<u8>,
    data: Seq<Result<Seq<u8>, Seq<u8>>>,
) -> Result<Seq<u8>, Seq<u8>> {
    match wc_first_err(args, data) {
        Some(m) => Err(m),
        None => {
            let width = wc_width(wc_has_dash(args), wc_file_bytes(args, data));
            let rows = wc_rows(args, input, data, width);
            if args.len() > 1 {
                Ok(
                    rows + wc_row(
                        wc_sum_lines(args, input, data),
                        wc_sum_words(args, input, data),
                        wc_sum_bytes(args, input, data),
                        width,
                    ) + seq![SPACE] + total_word() + seq![NEWLINE],
                )
            } else {
                Ok(rows)
            }
        },
    }
}

proof fn lemma_wc_counts_le(s: Seq<u8>)
    ensures
        wc_lines(s) <= s.len(),
        wc_words(s) <= s.len(),
    decreases s.len(),
{
    if s.len() > 0 {
        lemma_wc_counts_le(s.drop_last());
    }
}

proof fn lemma_wc_sums_le(args: Seq<Seq<u8>>, input: Seq<u8>, data: Seq<Result<Seq<u8>, Seq<u8>>>)
    ensures
        wc_sum_lines(args, input, data) <= wc_sum_bytes(args, input, data),
        wc_sum_words(args, input, data) <= wc_sum_bytes(args, input, data),
    decreases args.len(),
{
    if args.len() > 0 {
        lemma_wc_counts_le(wc_datum(args[0], input, data[0]));
        lemma_wc_sums_le(args.drop_first(), wc_rest_input(args[0], input), data.drop_first());
    }
}

fn total_vec() -> (r: Vec<u8>)
    ensures
        r@ == total_word(),
{
    let mut v: Vec<u8> = Vec::new();
    v.push(116);
    v.push(111);
    v.push(116);
    v.push(97);
    v.push(108);
    proof {
        assert(v@ =~= total_word());
    }
    v
}

/// The decimal digit count of `n` (1 for 0 through 9).
pub open spec fn dec_digits(n: nat) -> nat
    decreases n,
{
    if n < 10 {
        1
    } else {
        1 + dec_digits(n / 10)
    }
}

proof fn lemma_dec_digits_bound(n: nat)
    ensures
        1 <= dec_digits(n),
        n < 10 ==> dec_digits(n) == 1,
    decreases n,
{
    if n >= 10 {
        lemma_dec_digits_bound(n / 10);
    }
}

/// Powers of ten.
pub open spec fn pow10(k: nat) -> nat
    decreases k,
{
    if k == 0 {
        1
    } else {
        10 * pow10((k - 1) as nat)
    }
}

proof fn lemma_dec_digits_lt(n: nat, k: nat)
    requires
        k >= 1,
        n < pow10(k),
    ensures
        dec_digits(n) <= k,
    decreases k,
{
    if n >= 10 {
        assert(pow10(k) == 10 * pow10((k - 1) as nat));
        assert(n / 10 < pow10((k - 1) as nat)) by (nonlinear_arith)
            requires
                n < 10 * pow10((k - 1) as nat);
        lemma_dec_digits_lt(n / 10, (k - 1) as nat);
    }
}

proof fn lemma_dec_digits_max(n: usize)
    ensures
        dec_digits(n as nat) <= 20,
{
    reveal_with_fuel(pow10, 21);
    assert(pow10(20) == 100000000000000000000);
    assert((n as nat) < pow10(20));
    lemma_dec_digits_lt(n as nat, 20);
}

/// The decimal digits of `n`, most significant first.
pub open spec fn dec_rep(n: nat) -> Seq<u8>
    decreases n,
{
    if n < 10 {
        seq![(48 + n) as u8]
    } else {
        dec_rep(n / 10).push((48 + n % 10) as u8)
    }
}

/// A number right-aligned to `width`: spaces, then its decimal digits.
pub open spec fn aligned_number(n: nat, width: nat) -> Seq<u8> {
    if dec_digits(n) < width {
        Seq::new((width - dec_digits(n)) as nat, |i: int| SPACE) + dec_rep(n)
    } else {
        dec_rep(n)
    }
}

/// One row of `wc` output for the three counters.
pub open spec fn wc_row(lines: nat, words: nat, bytes: nat, width: nat) -> Seq<u8> {
    aligned_number(lines, width) + seq![SPACE] + aligned_number(words, width) + seq![SPACE]
        + aligned_number(bytes, width)
}

/// The alignment width `wc` uses.
pub open spec fn wc_width(has_input_arg: bool, regular_total: nat) -> nat {
    let minimum: nat = if has_input_arg {
        7
    } else {
        1
    };
    if dec_digits(regular_total) < minimum {
        minimum
    } else {
        dec_digits(regular_total)
    }
}

proof fn lemma_dec_rep_len(n: nat)
    ensures
        dec_rep(n).len() == dec_digits(n),
    decreases n,
{
    if n >= 10 {
        lemma_dec_rep_len(n / 10);
    }
}

/// Write `n` in decimal, right-aligned to `width` with spaces.
pub fn format_number(n: usize, width: usize) -> (r: Vec<u8>)
    ensures
        r@ == aligned_number(n as nat, width as nat),
{
    let mut digits: Vec<u8> = Vec::new();
    let mut rest: usize = n;
    while rest >= 10
        invariant
            dec_rep(n as nat) == dec_rep(rest as nat) + digits@,
        decreases rest,
    {
        let ghost digits0 = digits@;
        let d: u8 = (rest % 10) as u8 + 48;
        digits.insert(0, d);
        proof {
            assert(digits@ =~= seq![d] + digits0);
            assert(dec_rep(rest as nat) == dec_rep((rest / 10) as nat).push(d));
            assert(dec_rep((rest / 10) as nat) + digits@ =~= dec_rep(rest as nat) + digits0);
        }
        rest = rest / 10;
    }
    let ghost digits1 = digits@;
    digits.insert(0, (rest as u8) + 48);
    proof {
        assert(digits@ =~= seq![((rest as nat) + 48) as u8] + digits1);
        assert(dec_rep(rest as nat) == seq![((rest as nat) + 48) as u8]);
        assert(digits@ =~= dec_rep(n as nat));
        lemma_dec_rep_len(n as nat);
    }
    let mut out: Vec<u8> = Vec::new();
    let digit_count = digits.len();
    let pad: usize = if digit_count < width {
        width - digit_count
    } else {
        0
    };
    let mut i: usize = 0;
    while i < pad
        invariant
            0 <= i <= pad,
            out@ =~= Seq::new(i as nat, |j: int| SPACE),
        decreases pad - i,
    {
        out.push(SPACE);
        i += 1;
        proof {
            assert(out@ =~= Seq::new(i as nat, |j: int| SPACE));
        }
    }
    out.append(&mut digits);
    proof {
        if dec_digits(n as nat) < width {
            assert(out@ =~= aligned_number(n as nat, width as nat));
        } else {
            assert(out@ =~= aligned_number(n as nat, width as nat));
        }
    }
    out
}

} // verus!
