//! The `ls` builtin: lists each argument (the empty path, meaning the current
//! directory, when no argument is given). What a directory holds only the
//! file system knows; the stage formats the listings handed in.

use vstd::prelude::*;

use crate::NEWLINE;
use crate::SPACE;

verus! {

/// What the file system answered for one `ls` argument.
pub enum Listing {
    /// The path does not exist.
    Missing,
    /// A directory and the file names inside it, in the order walked.
    Dir(Vec<Vec<u8>>),
    /// A plain file and its file name.
    File(Vec<u8>),
}

/// The mathematical value of a [`Listing`].
pub enum ListingModel {
    Missing,
    Dir(Seq<Seq<u8>>),
    File(Seq<u8>),
}

impl View for Listing {
    type V = ListingModel;

    open spec fn view(&self) -> ListingModel {
        match self {
            Listing::Missing => ListingModel::Missing,
            Listing::Dir(entries) => ListingModel::Dir(crate::cmd::args_view(entries@)),
            Listing::File(name) => ListingModel::File(name@),
        }
    }
}

/// The listings of a result list, as mathematical values.
pub open spec fn listings_view(s: Seq<Listing>) -> Seq<ListingModel> {
    s.map_values(|l: Listing| l@)
}

/// `ls: cannot access '` — the head of the not-found message.
pub open spec fn ls_message_head() -> Seq<u8> {
    seq![108u8, 115u8, 58u8, 32u8]
        + seq![99u8, 97u8, 110u8, 110u8, 111u8, 116u8, 32u8]
        + seq![97u8, 99u8, 99u8, 101u8, 115u8, 115u8, 32u8, 39u8]
}

/// `': No such file or directory` and a line feed — the tail of the
/// not-found message.
pub open spec fn ls_message_tail() -> Seq<u8> {
    seq![39u8, 58u8, 32u8]
        + seq![78u8, 111u8, 32u8, 115u8, 117u8, 99u8, 104u8, 32u8]
        + seq![102u8, 105u8, 108u8, 101u8, 32u8, 111u8, 114u8, 32u8]
        + seq![100u8, 105u8, 114u8, 101u8, 99u8, 116u8, 111u8, 114u8, 121u8]
        + seq![NEWLINE]
}

/// The whole not-found message for one argument.
pub open spec fn ls_not_found_message(arg: Seq<u8>) -> Seq<u8> {
    ls_message_head() + arg + ls_message_tail()
}

/// Directory entries joined by single spaces.
pub open spec fn ls_join_entries(entries: Seq<Seq<u8>>) -> Seq<u8>
    decreases entries.len(),
{
    if entries.len() == 0 {
        Seq::empty()
    } else if entries.len() == 1 {
        entries[0]
    } else {
        ls_join_entries(entries.drop_last()) + seq![SPACE] + entries.last()
    }
}

/// What `ls` writes for one argument and its listing. The header — the
/// argument and a colon line — appears only when several arguments were
/// given.
pub open spec fn ls_one_output(arg: Seq<u8>, listing: ListingModel, need_header: bool) -> Seq<u8> {
    match listing {
        ListingModel::Missing => ls_not_found_message(arg),
        ListingModel::Dir(entries) => {
            let header: Seq<u8> = if need_header {
                arg + seq![58u8, NEWLINE]
            } else {
                Seq::empty()
            };
            header + ls_join_entries(entries) + seq![NEWLINE]
        },
        ListingModel::File(name) => {
            let header: Seq<u8> = if need_header {
                arg + seq![58u8, NEWLINE]
            } else {
                Seq::empty()
            };
            header + name + seq![NEWLINE]
        },
    }
}

/// What `ls` writes for all its arguments: the per-argument outputs, with a
/// blank separating line before every argument but the first.
pub open spec fn ls_output(args: Seq<Seq<u8>>, listings: Seq<ListingModel>, need_header: bool) -> Seq<
    u8,
>
    decreases args.len(),
{
    if args.len() == 0 {
        Seq::empty()
    } else {
        let front = ls_output(args.drop_last(), listings.drop_last(), need_header);
        let sep: Seq<u8> = if args.len() > 1 {
            seq![NEWLINE]
        } else {
            Seq::empty()
        };
        front + sep + ls_one_output(args.last(), listings.last(), need_header)
    }
}

/// The effective argument list: one empty path when no argument was given.
pub open spec fn ls_effective_args(args: Seq<Seq<u8>>) -> Seq<Seq<u8>> {
    if args.len() == 0 {
        seq![Seq::<u8>::empty()]
    } else {
        args
    }
}

/// The `ls` stage, holding its argument words.
pub struct LsCmd {
    args: Vec<Vec<u8>>,
}

impl View for LsCmd {
    type V = Seq<Seq<u8>>;

    closed spec fn view(&self) -> Seq<Seq<u8>> {
        crate::cmd::args_view(self.args@)
    }
}

impl LsCmd {
    pub fn new(args: Vec<Vec<u8>>) -> (r: Self)
        ensures
            r@ == crate::cmd::args_view(args@),
    {
        Self { args }
    }

    /// The paths to ask the file system about.
    pub fn paths(&self) -> (r: Vec<Vec<u8>>)
        ensures
            crate::cmd::args_view(r@) == ls_effective_args(self@),
    {
        if self.args.len() == 0 {
            let mut r: Vec<Vec<u8>> = Vec::new();
            let empty: Vec<u8> = Vec::new();
            proof {
                crate::cmd::lemma_args_view_push(r@, empty);
            }
            r.push(empty);
            proof {
                assert(crate::cmd::args_view(r@) =~= ls_effective_args(self@));
            }
            r
        } else {
            crate::cmd::cat::clone_args(&self.args)
        }
    }

    /// Format the listings, one per effective argument, into the bytes `ls`
    /// writes.
    pub fn run(&self, listings: &Vec<Listing>) -> (r: Vec<u8>)
        requires
            listings@.len() == ls_effective_args(self@).len(),
        ensures
            r@ == ls_output(ls_effective_args(self@), listings_view(listings@), ls_effective_args(
                self@,
            ).len() > 1),
    {
        let paths = self.paths();
        let n = paths.len();
        let need_header = n > 1;
        let mut out: Vec<u8> = Vec::new();
        let mut i: usize = 0;
        while i < n
            invariant
                n == paths.len(),
                listings@.len() == n,
                crate::cmd::args_view(paths@) == ls_effective_args(self@),
                need_header == (n > 1),
                0 <= i <= n,
                out@ == ls_output(
                    crate::cmd::args_view(paths@).take(i as int),
                    listings_view(listings@).take(i as int),
                    need_header,
                ),
            decreases n - i,
        {
            let ghost av = crate::cmd::args_view(paths@);
            let ghost lv = listings_view(listings@);
            if i > 0 {
                out.push(NEWLINE);
            }
            match &listings[i] {
                Listing::Missing => {
                    let mut head = ls_head_vec();
                    out.append(&mut head);
                    let mut a = paths[i].clone();
                    proof {
                        assert(a@ =~= av[i as int]);
                    }
                    out.append(&mut a);
                    let mut tail = ls_tail_vec();
                    out.append(&mut tail);
                },
                Listing::Dir(entries) => {
                    if need_header {
                        let mut a = paths[i].clone();
                        proof {
                            assert(a@ =~= av[i as int]);
                        }
                        out.append(&mut a);
                        out.push(58);
                        out.push(NEWLINE);
                    }
                    let mut joined = join_entries(entries);
                    out.append(&mut joined);
                    out.push(NEWLINE);
                },
                Listing::File(name) => {
                    if need_header {
                        let mut a = paths[i].clone();
                        proof {
                            assert(a@ =~= av[i as int]);
                        }
                        out.append(&mut a);
                        out.push(58);
                        out.push(NEWLINE);
                    }
                    let mut nm = name.clone();
                    proof {
                        assert(nm@ =~= lv[i as int]->File_0);
                    }
                    out.append(&mut nm);
                    out.push(NEWLINE);
                },
            }
            i += 1;
            proof {
                let ta = av.take(i as int);
                let tl = lv.take(i as int);
                assert(ta.drop_last() =~= av.take(i - 1));
                assert(tl.drop_last() =~= lv.take(i - 1));
                assert(ta.last() == av[i - 1]);
                assert(tl.last() == lv[i - 1]);
                assert(out@ =~= ls_output(ta, tl, need_header));
            }
        }
        proof {
            let av = crate::cmd::args_view(paths@);
            let lv = listings_view(listings@);
            assert(av.take(n as int) =~= av);
            assert(lv.take(n as int) =~= lv);
        }
        out
    }
}

fn ls_head_vec() -> (r: Vec<u8>)
    ensures
        r@ == ls_message_head(),
{
    let mut v: Vec<u8> = Vec::new();
    v.push(108);
    v.push(115);
    v.push(58);
    v.push(32);
    v.push(99);
    v.push(97);
    v.push(110);
    v.push(110);
    v.push(111);
    v.push(116);
    v.push(32);
    v.push(97);
    v.push(99);
    v.push(99);
    v.push(101);
    v.push(115);
    v.push(115);
    v.push(32);
    v.push(39);
    proof {
        assert(v@ =~= ls_message_head());
    }
    v
}

fn ls_tail_vec() -> (r: Vec<u8>)
    ensures
        r@ == ls_message_tail(),
{
    let mut v: Vec<u8> = Vec::new();
    v.push(39);
    v.push(58);
    v.push(32);
    v.push(78);
    v.push(111);
    v.push(32);
    v.push(115);
    v.push(117);
    v.push(99);
    v.push(104);
    v.push(32);
    v.push(102);
    v.push(105);
    v.push(108);
    v.push(101);
    v.push(32);
    v.push(111);
    v.push(114);
    v.push(32);
    v.push(100);
    v.push(105);
    v.push(114);
    v.push(101);
    v.push(99);
    v.push(116);
    v.push(111);
    v.push(114);
    v.push(121);
    v.push(NEWLINE);
    proof {
        assert(v@ =~= ls_message_tail());
    }
    v
}

/// Join directory entries with single spaces.
fn join_entries(entries: &Vec<Vec<u8>>) -> (r: Vec<u8>)
    ensures
        r@ == ls_join_entries(crate::cmd::args_view(entries@)),
{
    let mut out: Vec<u8> = Vec::new();
    let n = entries.len();
    let mut i: usize = 0;
    while i < n
        invariant
            n == entries.len(),
            0 <= i <= n,
            out@ == ls_join_entries(crate::cmd::args_view(entries@).take(i as int)),
        decreases n - i,
    {
        let ghost av = crate::cmd::args_view(entries@);
        if i > 0 {
            out.push(SPACE);
        }
        let mut e = entries[i].clone();
        proof {
            assert(e@ =~= av[i as int]);
        }
        out.append(&mut e);
        i += 1;
        proof {
            let t = av.take(i as int);
            assert(t.drop_last() =~= av.take(i - 1));
            assert(t.last() == av[i - 1]);
            assert(out@ =~= ls_join_entries(t));
        }
    }
    proof {
        assert(crate::cmd::args_view(entries@).take(n as int) =~= crate::cmd::args_view(entries@));
    }
    out
}

} // verus!
