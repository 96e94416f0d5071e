use vstd::prelude::*;
use vstd::string::StringExecFns;

verus! {

/// The messages joined with `sep` between consecutive ones.
pub open spec fn joined(ms: Seq<Seq<char>>, sep: Seq<char>) -> Seq<char>
    decreases ms.len(),
{
    if ms.len() == 0 {
        Seq::empty()
    } else if ms.len() == 1 {
        ms[0]
    } else {
        joined(ms.drop_last(), sep) + sep + ms.last()
    }
}

/// The description of an alarm record taken from the sample's alarm
/// messages: the messages joined by "; ", or `None` when there are none (the
/// caller then describes the alarm by its measurements).
pub fn alarm_description(messages: &Vec<String>) -> (r: Option<String>)
    ensures
        messages@.len() == 0 ==> r is None,
        messages@.len() > 0 ==> (r matches Some(d) && d@ == joined(messages@.map_values(|m: String| m@), "; "@)),
{
    if messages.len() == 0 {
        return None;
    }
    let ghost ms = messages@.map_values(|m: String| m@);
    let mut d = messages[0].clone();
    proof {
        assert(ms.take(1) =~= seq![ms[0]]);
    }
    let mut i: usize = 1;
    while i < messages.len()
        invariant
            1 <= i <= messages@.len(),
            ms == messages@.map_values(|m: String| m@),
            d@ == joined(ms.take(i as int), "; "@),
        decreases messages@.len() - i,
    {
        d.append("; ");
        d.append(messages[i].as_str());
        proof {
            let t = ms.take(i + 1);
            assert(t.drop_last() =~= ms.take(i as int));
            assert(t.last() == messages@[i as int]@);
        }
        i = i + 1;
    }
    proof {
        assert(ms.take(messages@.len() as int) =~= ms);
    }
    Some(d)
}

} // verus!
