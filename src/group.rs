//! One hardware-monitoring group: its name and the inputs found in its
//! directory.
use vstd::prelude::*;

verus! {

/// A monitoring group. The inputs are those that could be built, in the
/// order in which their files were listed.
pub struct Hwmon<T> {
    pub name: String,
    pub inputs: Vec<T>,
}

/// The values of the successful results, in order.
pub open spec fn successes<T, E>(s: Seq<Result<T, E>>) -> Seq<T>
    decreases s.len(),
{
    if s.len() == 0 {
        seq![]
    } else {
        match s[0] {
            Ok(t) => seq![t] + successes(s.drop_first()),
            Err(_) => successes(s.drop_first()),
        }
    }
}

/// The text of a name file without its final newline, if it has one.
pub open spec fn trim_newline(s: Seq<char>) -> Seq<char> {
    if s.len() > 0 && s.last() == '\n' {
        s.subrange(0, s.len() - 1)
    } else {
        s
    }
}

proof fn lemma_successes_concat<T, E>(a: Seq<Result<T, E>>, b: Seq<Result<T, E>>)
    ensures
        successes(a + b) == successes(a) + successes(b),
    decreases a.len(),
{
    if a.len() == 0 {
        assert(a + b =~= b);
        assert(successes(a) + successes(b) =~= successes(b));
    } else {
        assert((a + b).drop_first() =~= a.drop_first() + b);
        lemma_successes_concat(a.drop_first(), b);
        match a[0] {
            Ok(t) => {
                assert(seq![t] + (successes(a.drop_first()) + successes(b)) =~= (seq![t]
                    + successes(a.drop_first())) + successes(b));
            },
            Err(_) => {},
        }
    }
}

/// An input that fails to be built takes nothing else from its group: the
/// group keeps exactly the inputs it would keep without that one.
pub proof fn law_failure_is_skipped<T, E>(s: Seq<Result<T, E>>, i: int)
    requires
        0 <= i < s.len(),
        s[i] is Err,
    ensures
        successes(s) == successes(s.remove(i)),
{
    let a = s.subrange(0, i);
    let b = s.subrange(i + 1, s.len() as int);
    let one = seq![s[i]];
    assert(s =~= a + (one + b));
    assert(s.remove(i) =~= a + b);
    lemma_successes_concat(a, one + b);
    lemma_successes_concat(one, b);
    lemma_successes_concat(a, b);
    assert(one.drop_first() =~= Seq::<Result<T, E>>::empty());
    assert(successes(one.drop_first()) =~= Seq::<T>::empty());
    assert(successes(one) == successes(one.drop_first()));
    assert(successes(one) + successes(b) =~= successes(b));
}

impl<T> Hwmon<T> {
    /// Builds a group from the text of its name file and the outcome of
    /// building each of its inputs. Inputs that failed are left out.
    pub fn load<E>(name_file: &str, candidates: Vec<Result<T, E>>) -> (r: Hwmon<T>)
        ensures
            r.name@ == trim_newline(name_file@),
            r.inputs@ == successes(candidates@),
    {
        let n = name_file.unicode_len();
        let name = if n > 0 && name_file.get_char(n - 1) == '\n' {
            String::from_str(name_file.substring_char(0, n - 1))
        } else {
            String::from_str(name_file)
        };
        let mut rest = candidates;
        let mut inputs: Vec<T> = Vec::new();
        while rest.len() > 0
            invariant
                inputs@ + successes(rest@) == successes(candidates@),
            decreases rest@.len(),
        {
            let ghost before = rest@;
            let ghost kept = inputs@;
            let c = rest.remove(0);
            assert(rest@ =~= before.drop_first());
            match c {
                Ok(t) => {
                    inputs.push(t);
                    assert(inputs@ + successes(rest@) =~= kept + (seq![t] + successes(rest@)));
                },
                Err(_) => {},
            }
        }
        Hwmon { name, inputs }
    }
}

} // verus!
