//! Tags of entries, as a front end lists them.
use vstd::prelude::*;
use crate::runtime::{arg_view, texts};

verus! {

/// The texts `items`, with `sep` between each two.
pub open spec fn joined(items: Seq<Seq<char>>, sep: Seq<char>) -> Seq<char>
    decreases items.len(),
{
    if items.len() == 0 {
        Seq::empty()
    } else if items.len() == 1 {
        items[0]
    } else {
        joined(items.drop_last(), sep) + sep + items.last()
    }
}

/// The texts `items`, with `sep` between each two.
pub fn join(items: &Vec<String>, sep: &str) -> (r: String)
    ensures
        r@ == joined(texts(items@), sep@),
{
    let mut out = String::new();
    let mut i: usize = 0;
    proof {
        assert(texts(items@).take(0) =~= Seq::<Seq<char>>::empty());
    }
    while i < items.len()
        invariant
            i <= items@.len(),
            out@ == joined(texts(items@).take(i as int), sep@),
        decreases items@.len() - i,
    {
        let ghost done = texts(items@).take(i as int);
        let ghost next = texts(items@).take(i as int + 1);
        proof {
            assert(next.drop_last() =~= done);
            assert(next.last() == items@[i as int]@);
        }
        if i > 0 {
            out.append(sep);
        }
        out.append(items[i].as_str());
        proof {
            if i > 0 {
                assert(out@ =~= joined(done, sep@) + sep@ + next.last());
            } else {
                assert(next.len() == 1);
                assert(next[0] == next.last());
                assert(out@ =~= next[0]);
            }
        }
        i = i + 1;
    }
    proof {
        assert(texts(items@).take(items@.len() as int) =~= texts(items@));
    }
    out
}

/// The lines that list `tags`: each tag on a line of its own where that is asked for; then
/// the tags on one line with `sep` between them where a separator is given; then the tags
/// on one line with commas between them, where that is asked for or nothing else is.
pub open spec fn listed(
    tags: Seq<Seq<char>>,
    linewise: bool,
    sep: Option<Seq<char>>,
    commasep: bool,
) -> Seq<Seq<char>> {
    let lines = if linewise {
        tags
    } else {
        Seq::empty()
    };
    let separated = match sep {
        Some(s) => seq![joined(tags, s)],
        None => Seq::empty(),
    };
    let commas = if commasep || (!linewise && sep is None) {
        seq![joined(tags, ", "@)]
    } else {
        Seq::empty()
    };
    lines + separated + commas
}

/// The lines that list `tags` in the forms that are asked for.
pub fn list_lines(tags: &Vec<String>, linewise: bool, sep: Option<&str>, commasep: bool) -> (r:
    Vec<String>)
    ensures
        texts(r@) == listed(texts(tags@), linewise, arg_view(sep), commasep),
{
    let mut out: Vec<String> = Vec::new();
    if linewise {
        let mut i: usize = 0;
        proof {
            assert(texts(out@) =~= texts(tags@).take(0));
        }
        while i < tags.len()
            invariant
                i <= tags@.len(),
                texts(out@) == texts(tags@).take(i as int),
            decreases tags@.len() - i,
        {
            let ghost held = texts(out@);
            out.push(tags[i].clone());
            proof {
                assert(texts(out@) =~= held.push(tags@[i as int]@));
                assert(texts(out@) =~= texts(tags@).take(i as int + 1));
            }
            i = i + 1;
        }
        proof {
            assert(texts(tags@).take(tags@.len() as int) =~= texts(tags@));
        }
    } else {
        proof {
            assert(texts(out@) =~= Seq::<Seq<char>>::empty());
        }
    }
    let ghost lines = texts(out@);
    match sep {
        Some(s) => {
            out.push(join(tags, s));
            proof {
                assert(texts(out@) =~= lines + seq![joined(texts(tags@), s@)]);
            }
        },
        None => {
            proof {
                assert(texts(out@) =~= lines + Seq::<Seq<char>>::empty());
            }
        },
    }
    let ghost separated = texts(out@);
    if commasep || (!linewise && sep.is_none()) {
        out.push(join(tags, ", "));
        proof {
            assert(texts(out@) =~= separated + seq![joined(texts(tags@), ", "@)]);
        }
    } else {
        proof {
            assert(texts(out@) =~= separated + Seq::<Seq<char>>::empty());
        }
    }
    out
}

} // verus!
