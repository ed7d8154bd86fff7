//! The `grep` command: writes the lines of a file that match a pattern, with
//! optional case folding, whole-word matching, and a window of following
//! lines. Regular-expression matching is the regex crate's work, behind
//! trusted wrappers; the line loop and the window rule are verified here.

use vstd::prelude::*;

use crate::NEWLINE;

verus! {

/// Whether `pattern` is valid UTF-8. Relies on str::from_utf8: validity is a
/// function of the bytes alone.
pub uninterp spec fn utf8_ok(pattern: Seq<u8>) -> bool;

/// Whether `pattern`, read as UTF-8, compiles as a regular expression.
/// Relies on regex::bytes::Regex::new: acceptance is a function of the
/// pattern alone.
pub uninterp spec fn regex_compiles(pattern: Seq<u8>) -> bool;

/// Whether the compiled `pattern` matches somewhere in `text`. Relies on
/// regex::bytes::Regex::is_match: the answer is a function of pattern and
/// text alone.
pub uninterp spec fn regex_match(pattern: Seq<u8>, text: Seq<u8>) -> bool;

/// The bytes regex::escape treats as metacharacters: `\ . + * ? ( ) | [ ]
/// { } ^ $ # & - ~`, all of them ASCII.
pub open spec fn is_regex_meta(b: u8) -> bool {
    ||| b == 92
    ||| b == 46
    ||| b == 43
    ||| b == 42
    ||| b == 63
    ||| b == 40
    ||| b == 41
    ||| b == 124
    ||| b == 91
    ||| b == 93
    ||| b == 123
    ||| b == 125
    ||| b == 94
    ||| b == 36
    ||| b == 35
    ||| b == 38
    ||| b == 45
    ||| b == 126
}

/// The pattern with every regular-expression metacharacter escaped: a
/// backslash goes in front of each metacharacter byte. On valid UTF-8 this
/// byte-level statement equals the character-level escape, since every
/// metacharacter is ASCII and the bytes inside a multi-byte character never
/// fall in the ASCII range.
pub open spec fn regex_escaped(pattern: Seq<u8>) -> Seq<u8>
    decreases pattern.len(),
{
    if pattern.len() == 0 {
        Seq::empty()
    } else {
        (if is_regex_meta(pattern[0]) {
            seq![crate::BACKSLASH, pattern[0]]
        } else {
            seq![pattern[0]]
        }) + regex_escaped(pattern.drop_first())
    }
}

/// The text folded to lower case. Relies on str::to_lowercase: the folding is
/// the locale-independent Unicode one, a function of the bytes alone.
pub uninterp spec fn lower_of(text: Seq<u8>) -> Seq<u8>;

/// Compile `pattern` and test it against `text`.
///
/// Relies on regex::bytes::Regex::new and regex::bytes::Regex::is_match. The
/// compiled value cannot be spoken about by itself, so compilation and match
/// are taken together: one function from pattern and text to the answer.
/// `None` exactly when the pattern is not UTF-8 or does not compile.
#[verifier::external_body]
fn regex_is_match(pattern: &Vec<u8>, text: &Vec<u8>) -> (r: Option<bool>)
    ensures
        r is Some <==> (utf8_ok(pattern@) && regex_compiles(pattern@)),
        r matches Some(b) ==> b == regex_match(pattern@, text@),
{
    let p = match std::str::from_utf8(pattern.as_slice()) {
        Ok(p) => p,
        Err(_) => return None,
    };
    let re = match regex::bytes::Regex::new(p) {
        Ok(re) => re,
        Err(_) => return None,
    };
    Some(re.is_match(text.as_slice()))
}

/// Escape every regular-expression metacharacter in `pattern`.
///
/// Relies on regex::escape, which writes a backslash before each character of
/// its fixed metacharacter set. `None` exactly when the pattern is not UTF-8.
#[verifier::external_body]
fn regex_escape(pattern: &Vec<u8>) -> (r: Option<Vec<u8>>)
    ensures
        r is Some <==> utf8_ok(pattern@),
        r matches Some(e) ==> e@ == regex_escaped(pattern@),
{
    let p = match std::str::from_utf8(pattern.as_slice()) {
        Ok(p) => p,
        Err(_) => return None,
    };
    Some(regex::escape(p).into_bytes())
}

/// Fold `text` to lower case.
///
/// Relies on str::to_lowercase, which folds by the locale-independent Unicode
/// tables: the result depends on the bytes alone. Bytes that are not valid
/// UTF-8 are read lossily first; that too is a function of the bytes alone.
#[verifier::external_body]
fn fold_case(text: &Vec<u8>) -> (r: Vec<u8>)
    ensures
        r@ == lower_of(text@),
{
    String::from_utf8_lossy(text.as_slice()).to_lowercase().into_bytes()
}

/// The `grep` command line: flags, the pattern, and the file to search.
pub struct GrepArgs {
    /// Fold case on both the pattern and each line.
    pub case_insensitive: bool,
    /// Match the pattern only as a whole word.
    pub whole_word: bool,
    /// How many lines to keep writing after a match.
    pub count: usize,
    /// The pattern to search for.
    pub pattern: Vec<u8>,
    /// The file to search in.
    pub file: Vec<u8>,
}

/// The mathematical value of a [`GrepArgs`].
pub struct GrepArgsModel {
    pub case_insensitive: bool,
    pub whole_word: bool,
    pub count: nat,
    pub pattern: Seq<u8>,
    pub file: Seq<u8>,
}

impl View for GrepArgs {
    type V = GrepArgsModel;

    open spec fn view(&self) -> GrepArgsModel {
        GrepArgsModel {
            case_insensitive: self.case_insensitive,
            whole_word: self.whole_word,
            count: self.count as nat,
            pattern: self.pattern@,
            file: self.file@,
        }
    }
}

/// The `grep` stage, holding its raw argument words.
pub struct GrepCmd {
    args: Vec<Vec<u8>>,
}

impl View for GrepCmd {
    type V = Seq<Seq<u8>>;

    closed spec fn view(&self) -> Seq<Seq<u8>> {
        crate::cmd::args_view(self.args@)
    }
}

/// The escaped pattern wrapped in word boundaries: `\b`, the pattern, `\b`.
pub open spec fn word_pattern(escaped: Seq<u8>) -> Seq<u8> {
    seq![crate::BACKSLASH, 98u8] + escaped + seq![crate::BACKSLASH, 98u8]
}

/// The pattern actually compiled: the whole-word wrapping of the escaped
/// pattern, or the pattern itself, folded when matching is case-insensitive.
pub open spec fn grep_eff_pattern(args: GrepArgsModel) -> Seq<u8> {
    if args.whole_word {
        word_pattern(regex_escaped(args.pattern))
    } else if args.case_insensitive {
        lower_of(args.pattern)
    } else {
        args.pattern
    }
}

/// Whether the search can run at all: the pattern survives escaping or
/// folding, and what is compiled is a valid regular expression.
pub open spec fn grep_pattern_ok(args: GrepArgsModel) -> bool {
    if args.whole_word {
        utf8_ok(args.pattern) && utf8_ok(grep_eff_pattern(args)) && regex_compiles(
            grep_eff_pattern(args),
        )
    } else {
        utf8_ok(grep_eff_pattern(args)) && regex_compiles(grep_eff_pattern(args))
    }
}

/// Whether one line matches: the compiled pattern against the line, folded
/// when matching is case-insensitive.
pub open spec fn line_matches(args: GrepArgsModel, line: Seq<u8>) -> bool {
    regex_match(
        grep_eff_pattern(args),
        if args.case_insensitive {
            lower_of(line)
        } else {
            line
        },
    )
}

/// A line with any trailing carriage return removed.
pub open spec fn strip_cr(s: Seq<u8>) -> Seq<u8> {
    if s.len() > 0 && s.last() == 13 {
        s.drop_last()
    } else {
        s
    }
}

/// The lines of `rest` with `cur` already accumulated: a line feed ends a
/// line (a carriage return before it is dropped); a last segment without a
/// line feed is still a line.
pub open spec fn split_lines_from(cur: Seq<u8>, rest: Seq<u8>) -> Seq<Seq<u8>>
    decreases rest.len(),
{
    if rest.len() == 0 {
        if cur.len() == 0 {
            Seq::empty()
        } else {
            seq![cur]
        }
    } else if rest[0] == NEWLINE {
        seq![strip_cr(cur)] + split_lines_from(Seq::empty(), rest.drop_first())
    } else {
        split_lines_from(cur.push(rest[0]), rest.drop_first())
    }
}

/// The lines of a byte string.
pub open spec fn split_lines(s: Seq<u8>) -> Seq<Seq<u8>> {
    split_lines_from(Seq::empty(), s)
}

/// The bytes `grep` writes from line `i` on, with lines up to `lim` still
/// inside the after-match window: a matching line is written and extends the
/// window by `count`; a non-matching line is written only inside the window.
pub open spec fn grep_out_from(lines: Seq<Seq<u8>>, args: GrepArgsModel, i: int, lim: int) -> Seq<
    u8,
>
    decreases lines.len() - i,
        when 0 <= i
{
    if i >= lines.len() {
        Seq::empty()
    } else {
        let m = line_matches(args, lines[i]);
        let written: Seq<u8> = if m || i <= lim {
            lines[i] + seq![NEWLINE]
        } else {
            Seq::empty()
        };
        let lim2: int = if m {
            i + args.count
        } else {
            lim
        };
        written + grep_out_from(lines, args, i + 1, lim2)
    }
}

/// The message reported when the pattern cannot be compiled.
pub open spec fn bad_pattern_message() -> Seq<u8> {
    seq![105u8, 110u8, 118u8, 97u8, 108u8, 105u8, 100u8, 32u8]
        + seq![112u8, 97u8, 116u8, 116u8, 101u8, 114u8, 110u8]
}

/// What the search produces over its input: nothing for empty input, the
/// pattern error if the pattern cannot be compiled, otherwise each written
/// line under the window rule.
pub open spec fn grep_result(input: Seq<u8>, args: GrepArgsModel) -> Result<Seq<u8>, Seq<u8>> {
    let lines = split_lines(input);
    if lines.len() == 0 {
        Ok(Seq::empty())
    } else if !grep_pattern_ok(args) {
        Err(bad_pattern_message())
    } else {
        Ok(grep_out_from(lines, args, 0, -1))
    }
}

/// Wrap an escaped pattern in word boundaries.
fn word_pattern_vec(escaped: Vec<u8>) -> (r: Vec<u8>)
    ensures
        r@ == word_pattern(escaped@),
{
    let mut r: Vec<u8> = Vec::new();
    r.push(crate::BACKSLASH);
    r.push(98);
    let mut e = escaped;
    r.append(&mut e);
    r.push(crate::BACKSLASH);
    r.push(98);
    proof {
        assert(r@ =~= word_pattern(escaped@));
    }
    r
}

fn bad_pattern_vec() -> (r: Vec<u8>)
    ensures
        r@ == bad_pattern_message(),
{
    let mut v: Vec<u8> = Vec::new();
    v.push(105);
    v.push(110);
    v.push(118);
    v.push(97);
    v.push(108);
    v.push(105);
    v.push(100);
    v.push(32);
    v.push(112);
    v.push(97);
    v.push(116);
    v.push(116);
    v.push(101);
    v.push(114);
    v.push(110);
    proof {
        assert(v@ =~= bad_pattern_message());
    }
    v
}

/// Split a datum into its lines.
pub fn split_input(data: &Vec<u8>) -> (r: Vec<Vec<u8>>)
    ensures
        crate::cmd::args_view(r@) == split_lines(data@),
{
    let mut lines: Vec<Vec<u8>> = Vec::new();
    let mut cur: Vec<u8> = Vec::new();
    let n = data.len();
    let mut i: usize = 0;
    proof {
        assert(data@.skip(0) =~= data@);
        assert(crate::cmd::args_view(lines@) =~= Seq::<Seq<u8>>::empty());
        assert(Seq::<Seq<u8>>::empty() + split_lines_from(cur@, data@) =~= split_lines_from(
            cur@,
            data@,
        ));
        assert(cur@ =~= Seq::<u8>::empty());
    }
    while i < n
        invariant
            n == data.len(),
            0 <= i <= n,
            crate::cmd::args_view(lines@) + split_lines_from(cur@, data@.skip(i as int))
                == split_lines(data@),
        decreases n - i,
    {
        let ghost lv = crate::cmd::args_view(lines@);
        let ghost cur0 = cur@;
        let b = data[i];
        proof {
            assert(data@.skip(i as int)[0] == b);
            assert(data@.skip(i as int).drop_first() =~= data@.skip(i + 1));
        }
        if b == NEWLINE {
            if cur.len() > 0 && cur[cur.len() - 1] == 13 {
                cur.pop();
                proof {
                    assert(cur@ =~= strip_cr(cur0));
                }
            }
            proof {
                assert(cur@ == strip_cr(cur0));
                crate::cmd::lemma_args_view_push(lines@, cur);
            }
            lines.push(cur);
            cur = Vec::new();
            proof {
                assert(cur@ =~= Seq::<u8>::empty());
                assert(crate::cmd::args_view(lines@) =~= lv + seq![strip_cr(cur0)]);
                assert((lv + seq![strip_cr(cur0)]) + split_lines_from(cur@, data@.skip(i + 1)) =~= lv
                    + (seq![strip_cr(cur0)] + split_lines_from(cur@, data@.skip(i + 1))));
            }
        } else {
            cur.push(b);
        }
        i += 1;
    }
    proof {
        assert(data@.skip(n as int) =~= Seq::<u8>::empty());
    }
    if cur.len() > 0 {
        proof {
            crate::cmd::lemma_args_view_push(lines@, cur);
            assert(split_lines_from(cur@, Seq::<u8>::empty()) == seq![cur@]);
        }
        let ghost lv = crate::cmd::args_view(lines@);
        let ghost cv = cur@;
        lines.push(cur);
        proof {
            assert(crate::cmd::args_view(lines@) =~= lv + seq![cv]);
        }
    } else {
        proof {
            assert(crate::cmd::args_view(lines@) + split_lines_from(cur@, Seq::<u8>::empty())
                =~= crate::cmd::args_view(lines@));
        }
    }
    lines
}

impl GrepCmd {
    pub fn new(args: Vec<Vec<u8>>) -> (r: Self)
        ensures
            r@ == crate::cmd::args_view(args@),
    {
        Self { args }
    }

    /// Whether one line matches under the given flags; `None` when the
    /// pattern cannot be compiled.
    pub fn match_line(&self, line: &Vec<u8>, args: &GrepArgs) -> (r: Option<bool>)
        ensures
            r is Some <==> grep_pattern_ok(args@),
            r matches Some(b) ==> b == line_matches(args@, line@),
    {
        let eff_line = if args.case_insensitive {
            fold_case(line)
        } else {
            let c = line.clone();
            proof {
                assert(c@ =~= line@);
            }
            c
        };
        if args.whole_word {
            match regex_escape(&args.pattern) {
                None => None,
                Some(escaped) => {
                    let wp = word_pattern_vec(escaped);
                    regex_is_match(&wp, &eff_line)
                },
            }
        } else {
            let eff_pat = if args.case_insensitive {
                fold_case(&args.pattern)
            } else {
                let c = args.pattern.clone();
                proof {
                    assert(c@ =~= args.pattern@);
                }
                c
            };
            regex_is_match(&eff_pat, &eff_line)
        }
    }

    /// Search the input: write every matching line, and every line inside the
    /// window that a match opens for the next `count` lines. The error is the
    /// pattern that cannot be compiled, reported only when there is at least
    /// one line to match.
    pub fn raw_run(&self, input: &Vec<u8>, args: &GrepArgs) -> (r: Result<Vec<u8>, Vec<u8>>)
        ensures
            crate::cmd::cat::result_view(r) == grep_result(input@, args@),
    {
        let lines = split_input(input);
        let n = lines.len();
        let ghost lv = crate::cmd::args_view(lines@);
        if n == 0 {
            let empty_out: Vec<u8> = Vec::new();
            proof {
                assert(empty_out@ =~= Seq::<u8>::empty());
            }
            return Ok(empty_out);
        }
        match self.match_line(&lines[0], args) {
            None => {
                return Err(bad_pattern_vec());
            },
            Some(_) => {},
        }
        let mut out: Vec<u8> = Vec::new();
        let mut lim: i128 = -1;
        let mut i: usize = 0;
        proof {
            assert(out@ + grep_out_from(lv, args@, 0, -1) =~= grep_out_from(lv, args@, 0, -1));
        }
        while i < n
            invariant
                n == lines.len(),
                n > 0,
                lv == crate::cmd::args_view(lines@),
                0 <= i <= n,
                grep_pattern_ok(args@),
                out@ + grep_out_from(lv, args@, i as int, lim as int) == grep_out_from(
                    lv,
                    args@,
                    0,
                    -1,
                ),
                lim < i128::MAX - 1,
            decreases n - i,
        {
            let ghost out0 = out@;
            let ghost lim0 = lim;
            match self.match_line(&lines[i], args) {
                None => {
                    proof {
                        assert(false);
                    }
                    return Err(bad_pattern_vec());
                },
                Some(m) => {
                    proof {
                        assert(lines@[i as int]@ == lv[i as int]);
                    }
                    let write = m || (i as i128) <= lim;
                    if write {
                        let mut line = lines[i].clone();
                        proof {
                            assert(line@ =~= lv[i as int]);
                        }
                        out.append(&mut line);
                        out.push(NEWLINE);
                    }
                    if m {
                        lim = i as i128 + args.count as i128;
                    }
                    i += 1;
                    proof {
                        let h: Seq<u8> = if m || i - 1 <= lim0 as int {
                            lv[i - 1] + seq![NEWLINE]
                        } else {
                            Seq::empty()
                        };
                        assert(out@ =~= out0 + h);
                        assert(out0 + h + grep_out_from(lv, args@, i as int, lim as int) =~= out0 + (
                        h + grep_out_from(lv, args@, i as int, lim as int)));
                    }
                },
            }
        }
        proof {
            assert(grep_out_from(lv, args@, n as int, lim as int) == Seq::<u8>::empty());
            assert(out@ + Seq::<u8>::empty() =~= out@);
        }
        Ok(out)
    }
}

} // verus!
