//! Writing command outputs: which outputs are written at all, and, in
//! keep-order mode, holding outputs back until those of earlier input lines
//! have been written.
use vstd::prelude::*;

use std::collections::BTreeMap;

use vstd::std_specs::cmp::OrdSpec;
use vstd::std_specs::iter::IteratorSpec;

verus! {

broadcast use {vstd::laws_cmp::group_laws_cmp, vstd::std_specs::btree::group_btree_axioms};

/// Whether a finished command has output to write: it failed, or it wrote
/// something to stdout or stderr.
pub fn output_should_be_sent(success: bool, stdout_is_empty: bool, stderr_is_empty: bool) -> (r: bool)
    ensures
        r == !(success && stdout_is_empty && stderr_is_empty),
{
    !(success && stdout_is_empty && stderr_is_empty)
}

/// The keys `start`, `start + 1`, ..., `start + n - 1`.
pub open spec fn key_range(start: int, n: int) -> Set<usize> {
    Set::new(|k: usize| start <= k < start + n)
}

/// `ks` lists the keys of `dom` in increasing order.
pub open spec fn increasing_keys(ks: Seq<usize>, dom: Set<usize>) -> bool {
    &&& forall|i: int, j: int| 0 <= i < j < ks.len() ==> ks[i] < ks[j]
    &&& ks.to_set() == dom
    &&& ks.no_duplicates()
}

/// Holds the outputs of commands until all outputs of earlier input lines
/// have been written.
pub struct OutputOrderBuffer<T> {
    buffered_outputs: BTreeMap<usize, T>,
    next_line_number: usize,
}

impl<T> OutputOrderBuffer<T> {
    /// The outputs held back, by line number.
    pub closed spec fn pending(&self) -> Map<usize, T> {
        self.buffered_outputs@
    }

    /// The line number whose output is written next.
    pub closed spec fn next_line(&self) -> nat {
        self.next_line_number as nat
    }

    /// No output is held for the largest line number, whose successor
    /// does not exist.
    pub closed spec fn wf(&self) -> bool {
        forall|k: usize| #[trigger] self.buffered_outputs@.contains_key(k) ==> k < usize::MAX
    }

    /// An empty buffer that writes line 1 first.
    pub fn new() -> (r: Self)
        ensures
            r.wf(),
            r.pending() == Map::<usize, T>::empty(),
            r.next_line() == 1,
    {
        OutputOrderBuffer { buffered_outputs: BTreeMap::new(), next_line_number: 1 }
    }

    /// Inserting the output of `line_number` into `before` gives `after` and
    /// releases `ready`: the outputs held for the next line number and each
    /// following one, as long as there is one, in that order; the next line
    /// number moves past them and they are no longer held.
    pub open spec fn inserted(before: Self, line_number: usize, output: T, after: Self, ready: Seq<T>) -> bool {
        let held = before.pending().insert(line_number, output);
        let start = before.next_line() as int;
        let n = ready.len() as int;
        &&& forall|k: usize| #[trigger] key_range(start, n).contains(k)
            ==> held.contains_key(k) && ready[k - start] == held[k]
        &&& start + n <= usize::MAX
        &&& !held.contains_key((start + n) as usize)
        &&& after.next_line() == start + n
        &&& after.pending() == held.remove_keys(key_range(start, n))
    }

    /// Takes the output of `line_number` (replacing any output held for the
    /// same line number) and returns the outputs that are now due, in order:
    /// those of the next line number and of each following one, as long as
    /// they are held.
    pub fn insert(&mut self, line_number: usize, output: T) -> (ready: Vec<T>)
        requires
            old(self).wf(),
            line_number < usize::MAX,
        ensures
            final(self).wf(),
            Self::inserted(*old(self), line_number, output, *final(self), ready@),
    {
        let ghost held = self.buffered_outputs@.insert(line_number, output);
        let ghost start = self.next_line_number as int;
        let _ = self.buffered_outputs.insert(line_number, output);
        let mut ready: Vec<T> = Vec::new();
        assert(held.remove_keys(key_range(start, 0)) =~= held);
        loop
            invariant_except_break
                self.buffered_outputs@ == held.remove_keys(key_range(start, ready@.len() as int)),
                self.next_line_number == start + ready@.len(),
                forall|k: usize| #[trigger] held.contains_key(k) ==> k < usize::MAX,
                forall|k: usize| #[trigger] key_range(start, ready@.len() as int).contains(k)
                    ==> held.contains_key(k) && ready@[k - start] == held[k],
            ensures
                self.buffered_outputs@ == held.remove_keys(key_range(start, ready@.len() as int)),
                self.next_line_number == start + ready@.len(),
                forall|k: usize| #[trigger] held.contains_key(k) ==> k < usize::MAX,
                forall|k: usize| #[trigger] key_range(start, ready@.len() as int).contains(k)
                    ==> held.contains_key(k) && ready@[k - start] == held[k],
                !held.contains_key(self.next_line_number),
            decreases usize::MAX - self.next_line_number,
        {
            let next = self.next_line_number;
            let ghost n = ready@.len() as int;
            match self.buffered_outputs.remove(&next) {
                Some(output) => {
                    assert(!key_range(start, n).contains(next));
                    assert(held.contains_key(next));
                    assert(next < usize::MAX);
                    let ghost old_ready = ready@;
                    ready.push(output);
                    self.next_line_number = next + 1;
                    assert(held.remove_keys(key_range(start, n)).remove(next) =~= held.remove_keys(
                        key_range(start, n + 1),
                    ));
                    assert forall|k: usize| #[trigger] key_range(start, n + 1).contains(k)
                        implies held.contains_key(k) && ready@[k - start] == held[k] by {
                        if k < next {
                            assert(key_range(start, n).contains(k));
                            assert(ready@[k - start] == old_ready[k - start]);
                        }
                    };
                },
                None => {
                    assert(!held.contains_key(next)) by {
                        if held.contains_key(next) {
                            assert(!key_range(start, n).contains(next));
                            assert(self.buffered_outputs@.contains_key(next));
                        }
                    };
                    break ;
                },
            }
        }
        assert forall|k: usize| #[trigger] self.buffered_outputs@.contains_key(k) implies k < usize::MAX by {
            assert(held.contains_key(k));
        };
        ready
    }

    /// All outputs still held, in increasing order of line number.
    pub fn take_remaining(self) -> (r: Vec<T>)
        ensures
            exists|ks: Seq<usize>|
                #[trigger] increasing_keys(ks, self.pending().dom()) && r@ == ks.map_values(
                    |k: usize| self.pending()[k],
                ),
    {
        let ghost pend = self.pending();
        let mut outputs = self.buffered_outputs;
        let ghost m = outputs@;
        assert(m == pend);
        let mut keys: Vec<usize> = Vec::new();
        for k in it: outputs.keys()
            invariant
                keys@ == it.seq().take(it.index() as int).map_values(|r: &usize| *r),
        {
            keys.push(*k);
        }
        let ghost ks = keys@;
        proof {
            let s = vstd::std_specs::btree::spec_keys_iter(&outputs).remaining();
            assert(keys@ =~= s.map_values(|r: &usize| *r));
            assert(vstd::std_specs::btree::increasing_seq(s));
            lemma_increasing_refs(s);
            assert(ks =~= s.unref());
            assert(ks.to_set() =~= m.dom());
            assert(ks.no_duplicates());
        }
        let mut r: Vec<T> = Vec::new();
        let mut i: usize = 0;
        while i < keys.len()
            invariant
                i <= keys@.len(),
                keys@ == ks,
                increasing_keys(ks, m.dom()),
                r@ == ks.take(i as int).map_values(|k: usize| m[k]),
                outputs@ == m.remove_keys(ks.take(i as int).to_set()),
            decreases keys.len() - i,
        {
            let k = keys[i];
            assert(m.dom().contains(k)) by {
                assert(ks.to_set().contains(k));
            };
            assert(!ks.take(i as int).to_set().contains(k)) by {
                if ks.take(i as int).to_set().contains(k) {
                    let j = choose|j: int| 0 <= j < i && ks.take(i as int)[j] == k;
                    assert(ks[j] < ks[i as int]);
                }
            };
            match outputs.remove(&k) {
                Some(v) => {
                    r.push(v);
                },
                None => {
                    assert(false);
                },
            }
            assert(ks.take(i + 1).to_set() =~= ks.take(i as int).to_set().insert(k)) by {
                let a = ks.take(i + 1);
                let b = ks.take(i as int);
                assert(a =~= b.push(k));
                assert forall|x: usize| a.contains(x) <==> (b.contains(x) || x == k) by {
                    if a.contains(x) {
                        let j = choose|j: int| 0 <= j < a.len() && a[j] == x;
                        if j < b.len() {
                            assert(b[j] == x);
                        }
                    }
                    if b.contains(x) {
                        let j = choose|j: int| 0 <= j < b.len() && b[j] == x;
                        assert(a[j] == x);
                    }
                    if x == k {
                        assert(a[i as int] == x);
                    }
                };
            };
            assert(r@ =~= ks.take(i + 1).map_values(|k: usize| m[k]));
            assert(outputs@ =~= m.remove_keys(ks.take(i + 1).to_set()));
            i = i + 1;
        }
        assert(ks.take(ks.len() as int) =~= ks);
        assert(increasing_keys(ks, m.dom()));
        assert(r@ =~= ks.map_values(|k: usize| pend[k]));
        assert(increasing_keys(ks, pend.dom()) && r@ == ks.map_values(|k: usize| pend[k]));
        r
    }
}

/// Outputs are written in line order: when the output of a line not yet
/// written is inserted, and every held output is of a line after the next
/// one to write, then the next line to write does not go back, and every
/// output still held is again of a line after the next one to write.
pub proof fn held_outputs_stay_ahead<T>(
    before: OutputOrderBuffer<T>,
    line_number: usize,
    output: T,
    after: OutputOrderBuffer<T>,
    ready: Seq<T>,
)
    requires
        forall|k: usize| #[trigger] before.pending().contains_key(k) ==> k > before.next_line(),
        line_number >= before.next_line(),
        OutputOrderBuffer::inserted(before, line_number, output, after, ready),
    ensures
        after.next_line() == before.next_line() + ready.len(),
        forall|k: usize| #[trigger] after.pending().contains_key(k) ==> k > after.next_line(),
{
    let held = before.pending().insert(line_number, output);
    let start = before.next_line() as int;
    let n = ready.len() as int;
    assert forall|k: usize| #[trigger] after.pending().contains_key(k) implies k > after.next_line() by {
        assert(held.contains_key(k));
        assert(!key_range(start, n).contains(k));
        assert(k >= start);
        assert(k != start + n);
    }
}

/// The outputs inserted, by line number (a later insert of a line number
/// replaces an earlier one).
pub open spec fn inserted_map<T>(inserts: Seq<(usize, T)>) -> Map<usize, T>
    decreases inserts.len(),
{
    if inserts.len() == 0 {
        Map::empty()
    } else {
        inserted_map(inserts.drop_last()).insert(inserts.last().0, inserts.last().1)
    }
}

/// The outputs released by a run of inserts, one batch after the other.
pub open spec fn released<T>(readys: Seq<Seq<T>>) -> Seq<T>
    decreases readys.len(),
{
    if readys.len() == 0 {
        Seq::empty()
    } else {
        released(readys.drop_last()) + readys.last()
    }
}

/// A run of inserts: `states[i + 1]` and `readys[i]` come from inserting
/// `inserts[i]` into `states[i]`.
pub open spec fn insert_run<T>(
    states: Seq<OutputOrderBuffer<T>>,
    inserts: Seq<(usize, T)>,
    readys: Seq<Seq<T>>,
) -> bool {
    &&& states.len() == inserts.len() + 1
    &&& readys.len() == inserts.len()
    &&& forall|i: int|
        0 <= i < inserts.len() ==> OutputOrderBuffer::inserted(
            states[i],
            inserts[i].0,
            inserts[i].1,
            states[i + 1],
            #[trigger] readys[i],
        )
}

proof fn lemma_inserted_map_keys<T>(inserts: Seq<(usize, T)>, l: usize)
    requires
        inserted_map(inserts).contains_key(l),
    ensures
        exists|i: int| 0 <= i < inserts.len() && (#[trigger] inserts[i]).0 == l,
    decreases inserts.len(),
{
    let n = inserts.len() as int;
    if inserts[n - 1].0 != l {
        lemma_inserted_map_keys(inserts.drop_last(), l);
        let i = choose|i: int| 0 <= i < n - 1 && (#[trigger] inserts.drop_last()[i]).0 == l;
        assert(inserts[i] == inserts.drop_last()[i]);
    }
}

/// Outputs are written in the order of their input lines: starting from an
/// empty buffer, after any run of inserts of distinct line numbers from 1
/// on, the outputs released are those of lines 1, 2, 3, ..., each once and
/// in that order, up to the first line not yet inserted, and the outputs
/// still held are those of all other lines inserted.
pub proof fn outputs_released_in_line_order<T>(
    states: Seq<OutputOrderBuffer<T>>,
    inserts: Seq<(usize, T)>,
    readys: Seq<Seq<T>>,
)
    requires
        insert_run(states, inserts, readys),
        states[0].pending() == Map::<usize, T>::empty(),
        states[0].next_line() == 1,
        forall|i: int, j: int| 0 <= i < j < inserts.len() ==> inserts[i].0 != inserts[j].0,
        forall|i: int| 0 <= i < inserts.len() ==> (#[trigger] inserts[i]).0 >= 1,
    ensures
        released(readys).len() == states.last().next_line() - 1,
        forall|l: usize|
            1 <= l < states.last().next_line() ==> #[trigger] inserted_map(inserts).contains_key(l),
        forall|k: int|
            0 <= k < states.last().next_line() - 1 ==> #[trigger] released(readys)[k] == inserted_map(
                inserts,
            )[(k + 1) as usize],
        states.last().pending() == inserted_map(inserts).remove_keys(
            key_range(1, states.last().next_line() - 1),
        ),
    decreases inserts.len(),
{
    let n = inserts.len() as int;
    if n == 0 {
        assert(states.last() == states[0]);
        assert(states.last().next_line() == 1);
        assert(states.last().pending() =~= inserted_map(inserts).remove_keys(
            key_range(1, states.last().next_line() - 1),
        ));
    } else {
        let states0 = states.drop_last();
        let inserts0 = inserts.drop_last();
        let readys0 = readys.drop_last();
        assert forall|i: int| 0 <= i < inserts0.len() implies OutputOrderBuffer::inserted(
            states0[i],
            inserts0[i].0,
            inserts0[i].1,
            states0[i + 1],
            #[trigger] readys0[i],
        ) by {
            assert(readys0[i] == readys[i]);
        }
        assert forall|i: int| 0 <= i < inserts0.len() implies (#[trigger] inserts0[i]).0 >= 1 by {
            assert(inserts0[i] == inserts[i]);
        }
        outputs_released_in_line_order(states0, inserts0, readys0);
        let before = states[n - 1];
        let after = states[n];
        assert(states.last() == after);
        let line = inserts[n - 1].0;
        let out = inserts[n - 1].1;
        let r = readys[n - 1];
        assert(states0.last() == before);
        assert(OutputOrderBuffer::inserted(before, line, out, after, r));
        let m0 = inserted_map(inserts0);
        let m = inserted_map(inserts);
        assert(m == m0.insert(line, out));
        let start = before.next_line() as int;
        let nn = r.len() as int;
        let rel0 = released(readys0);
        assert(released(readys) == rel0 + r);
        assert(!m0.contains_key(line)) by {
            if m0.contains_key(line) {
                lemma_inserted_map_keys(inserts0, line);
                let i = choose|i: int| 0 <= i < inserts0.len() && (#[trigger] inserts0[i]).0 == line;
                assert(inserts[i].0 == line);
            }
        }
        assert(line >= start) by {
            if line < start {
                assert(m0.contains_key(line));
            }
        }
        let r0 = key_range(1, start - 1);
        let held = before.pending().insert(line, out);
        assert(held =~= m.remove_keys(r0));
        assert(after.pending() =~= m.remove_keys(key_range(1, after.next_line() - 1)));
        assert forall|k: int| 0 <= k < after.next_line() - 1 implies #[trigger] released(readys)[k] == m[(k
            + 1) as usize] by {
            if k < start - 1 {
                assert(released(readys)[k] == rel0[k]);
                assert(m0.contains_key((k + 1) as usize));
            } else {
                let kk = (k + 1) as usize;
                assert(key_range(start, nn).contains(kk));
                assert(released(readys)[k] == r[kk - start]);
                assert(!r0.contains(kk));
            }
        }
        assert forall|l: usize| 1 <= l < after.next_line() implies #[trigger] m.contains_key(l) by {
            if l < start {
                assert(m0.contains_key(l));
            } else {
                assert(key_range(start, nn).contains(l));
            }
        }
    }
}

/// Keys in increasing order by `Ord` are in increasing order by `<`.
proof fn lemma_increasing_refs(s: Seq<&usize>)
    requires
        vstd::std_specs::btree::increasing_seq(s),
    ensures
        forall|i: int, j: int| 0 <= i < j < s.len() ==> *s[i] < *s[j],
{
    assert(vstd::laws_cmp::obeys_cmp::<&usize>());
    vstd::std_specs::btree::axiom_increasing_seq_meaning(s);
    assert forall|i: int, j: int| 0 <= i < j < s.len() implies *s[i] < *s[j] by {
        assert(OrdSpec::cmp_spec(&s[i], &s[j]) is Less);
    };
}

} // verus!
