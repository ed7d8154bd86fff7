//! The `cat` builtin: concatenates the contents of its arguments, in order.
//! The argument `-` stands for the stage's input; with no arguments at all,
//! `-` is the single implied argument. Reading files is outside work: the
//! stage computes which sources it needs and assembles their contents.

use vstd::prelude::*;

verus! {

/// The single byte `-`, the argument that stands for the stage's input.
pub open spec fn dash() -> Seq<u8> {
    seq![45u8]
}

/// The effective argument list: `-` alone when no argument was given.
pub open spec fn cat_effective_args(args: Seq<Seq<u8>>) -> Seq<Seq<u8>> {
    if args.len() == 0 {
        seq![dash()]
    } else {
        args
    }
}

/// What `cat` produces, given the stage input and one read result per
/// effective argument: the bytes written, and the first failed read if any.
/// Arguments are taken in order; `-` copies the input stream through, so the
/// first `-` takes all of it and a later `-` reads it exhausted. A failed
/// read stops the copy, but the bytes already written stay written.
pub open spec fn cat_result(
    args: Seq<Seq<u8>>,
    input: Seq<u8>,
    data: Seq<Result<Seq<u8>, Seq<u8>>>,
) -> (Seq<u8>, Option<Seq<u8>>)
    decreases args.len(),
{
    if args.len() == 0 {
        (Seq::empty(), None)
    } else if args[0] == dash() {
        let rest = cat_result(args.drop_first(), Seq::empty(), data.drop_first());
        (input + rest.0, rest.1)
    } else {
        match data[0] {
            Ok(h) => {
                let rest = cat_result(args.drop_first(), input, data.drop_first());
                (h + rest.0, rest.1)
            },
            Err(m) => (Seq::empty(), Some(m)),
        }
    }
}

/// An optional error message as a mathematical value.
pub open spec fn opt_bytes_view(o: Option<Vec<u8>>) -> Option<Seq<u8>> {
    match o {
        Some(v) => Some(v@),
        None => None,
    }
}

/// The `cat` stage, holding its argument words.
pub struct CatCmd {
    args: Vec<Vec<u8>>,
}

impl View for CatCmd {
    type V = Seq<Seq<u8>>;

    closed spec fn view(&self) -> Seq<Seq<u8>> {
        crate::cmd::args_view(self.args@)
    }
}

impl CatCmd {
    pub fn new(args: Vec<Vec<u8>>) -> (r: Self)
        ensures
            r@ == crate::cmd::args_view(args@),
    {
        Self { args }
    }

    /// The effective argument list: each entry is a file path to read, or `-`
    /// for the stage's input.
    pub fn sources(&self) -> (r: Vec<Vec<u8>>)
        ensures
            crate::cmd::args_view(r@) == cat_effective_args(self@),
    {
        if self.args.len() == 0 {
            let mut d: Vec<u8> = Vec::new();
            d.push(45);
            proof {
                assert(d@ =~= dash());
            }
            let mut r: Vec<Vec<u8>> = Vec::new();
            proof {
                crate::cmd::lemma_args_view_push(r@, d);
            }
            r.push(d);
            proof {
                assert(crate::cmd::args_view(r@) =~= cat_effective_args(self@));
            }
            r
        } else {
            let r = clone_args(&self.args);
            r
        }
    }

    /// Copy the sources into the output, from the stage input and one datum
    /// per effective argument, each `Err` naming a file that could not be
    /// read. The result is the bytes written — everything up to the first
    /// failed read — and that failure's message, if any.
    pub fn run(&self, input: &Vec<u8>, data: &Vec<Result<Vec<u8>, Vec<u8>>>) -> (r: (
        Vec<u8>,
        Option<Vec<u8>>,
    ))
        requires
            data@.len() == cat_effective_args(self@).len(),
        ensures
            r.0@ == cat_result(cat_effective_args(self@), input@, data_values(data@)).0,
            opt_bytes_view(r.1) == cat_result(
                cat_effective_args(self@),
                input@,
                data_values(data@),
            ).1,
    {
        let srcs = self.sources();
        let n = srcs.len();
        let mut out: Vec<u8> = Vec::new();
        let mut used_input = false;
        let mut i: usize = 0;
        proof {
            let av = crate::cmd::args_view(srcs@);
            let dv = data_values(data@);
            assert(av.skip(0) =~= av);
            assert(dv.skip(0) =~= dv);
            assert(forall|rest: Seq<u8>| out@ + rest =~= rest);
        }
        while i < n
            invariant
                n == srcs.len(),
                data@.len() == n,
                crate::cmd::args_view(srcs@) == cat_effective_args(self@),
                0 <= i <= n,
                ({
                    let av = crate::cmd::args_view(srcs@);
                    let dv = data_values(data@);
                    let cur: Seq<u8> = if used_input {
                        Seq::empty()
                    } else {
                        input@
                    };
                    let rest = cat_result(av.skip(i as int), cur, dv.skip(i as int));
                    &&& cat_result(av, input@, dv).0 == out@ + rest.0
                    &&& cat_result(av, input@, dv).1 == rest.1
                }),
            decreases n - i,
        {
            let ghost av = crate::cmd::args_view(srcs@);
            let ghost dv = data_values(data@);
            let ghost out0 = out@;
            let ghost cur0: Seq<u8> = if used_input {
                Seq::empty()
            } else {
                input@
            };
            let ghost h: Seq<u8> = if av[i as int] == dash() {
                cur0
            } else {
                match dv[i as int] {
                    Ok(v) => v,
                    Err(_) => Seq::empty(),
                }
            };
            if crate::env::bytes_eq(&srcs[i], &dash_vec()) {
                if !used_input {
                    let mut chunk = input.clone();
                    proof {
                        assert(chunk@ =~= input@);
                    }
                    out.append(&mut chunk);
                }
                used_input = true;
            } else {
                match &data[i] {
                    Ok(d) => {
                        let mut chunk = d.clone();
                        proof {
                            assert(chunk@ =~= d@);
                            assert(dv[i as int] == Ok::<Seq<u8>, Seq<u8>>(d@));
                        }
                        out.append(&mut chunk);
                    },
                    Err(e) => {
                        let m = e.clone();
                        proof {
                            assert(m@ =~= e@);
                            assert(dv[i as int] == Err::<Seq<u8>, Seq<u8>>(e@));
                            assert(av.skip(i as int)[0] == av[i as int]);
                            assert(dv.skip(i as int)[0] == dv[i as int]);
                            assert(out@ + Seq::<u8>::empty() =~= out@);
                        }
                        return (out, Some(m));
                    },
                }
            }
            i += 1;
            proof {
                let cur: Seq<u8> = if used_input {
                    Seq::empty()
                } else {
                    input@
                };
                assert(av.skip(i - 1).drop_first() =~= av.skip(i as int));
                assert(dv.skip(i - 1).drop_first() =~= dv.skip(i as int));
                assert(av.skip(i - 1)[0] == av[i - 1]);
                assert(dv.skip(i - 1)[0] == dv[i - 1]);
                assert(out@ =~= out0 + h);
                let rest = cat_result(av.skip(i as int), cur, dv.skip(i as int));
                assert(out0 + h + rest.0 =~= out0 + (h + rest.0));
            }
        }
        proof {
            let av = crate::cmd::args_view(srcs@);
            let dv = data_values(data@);
            assert(av.skip(n as int) =~= Seq::<Seq<u8>>::empty());
            assert(dv.skip(n as int) =~= Seq::<Result<Seq<u8>, Seq<u8>>>::empty());
            assert(out@ + Seq::<u8>::empty() =~= out@);
        }
        (out, None)
    }
}

/// Read results as mathematical values.
pub open spec fn data_values(s: Seq<Result<Vec<u8>, Vec<u8>>>) -> Seq<Result<Seq<u8>, Seq<u8>>> {
    s.map_values(|r: Result<Vec<u8>, Vec<u8>>| result_view(r))
}

/// One read result as a mathematical value.
pub open spec fn result_view(r: Result<Vec<u8>, Vec<u8>>) -> Result<Seq<u8>, Seq<u8>> {
    match r {
        Ok(v) => Ok(v@),
        Err(e) => Err(e@),
    }
}

/// The one-byte word `-`.
pub fn dash_vec() -> (r: Vec<u8>)
    ensures
        r@ == dash(),
{
    let mut d: Vec<u8> = Vec::new();
    d.push(45);
    proof {
        assert(d@ =~= dash());
    }
    d
}

/// Copy an argument list.
pub fn clone_args(args: &Vec<Vec<u8>>) -> (r: Vec<Vec<u8>>)
    ensures
        crate::cmd::args_view(r@) == crate::cmd::args_view(args@),
{
    let mut r: Vec<Vec<u8>> = Vec::new();
    let n = args.len();
    let mut i: usize = 0;
    while i < n
        invariant
            n == args.len(),
            0 <= i <= n,
            crate::cmd::args_view(r@) =~= crate::cmd::args_view(args@.subrange(0, i as int)),
        decreases n - i,
    {
        let a = args[i].clone();
        proof {
            assert(a@ =~= args@[i as int]@);
            crate::cmd::lemma_args_view_push(r@, a);
        }
        r.push(a);
        i += 1;
        proof {
            let s = args@;
            assert(s.subrange(0, i as int) =~= s.subrange(0, i - 1).push(s[i - 1]));
            crate::cmd::lemma_args_view_push(s.subrange(0, i - 1), s[i - 1]);
            assert(crate::cmd::args_view(r@) =~= crate::cmd::args_view(s.subrange(0, i as int)));
        }
    }
    proof {
        assert(args@.subrange(0, n as int) =~= args@);
    }
    r
}

} // verus!
