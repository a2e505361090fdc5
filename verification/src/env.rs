//! Scope-chain environments.
//!
//! Frames live in an arena owned by the interpreter: a vector of frames,
//! each holding a binding table and the index of its enclosing frame. A
//! frame's enclosing index is always smaller than its own, so every chain
//! reaches the global frame and lookup terminates. Closures keep the index
//! of the frame that was active at their declaration, which may outlive the
//! block that created it; the arena therefore never discards a frame.
//!
//! A frame's model is a map from name to optional value; the binding list
//! is folded into the map so that a later entry for the same name wins,
//! exactly as insertion into a map does.

use crate::token::LoxType;
use crate::value::{vview_opt, ValueV};
use vstd::prelude::*;

verus! {

/// The model of one frame: its binding table and its enclosing frame.
#[verifier::ext_equal]
pub ghost struct FrameV {
    pub table: Map<Seq<char>, Option<ValueV>>,
    pub enclosing: Option<int>,
}

/// One binding frame: a name-to-value list and the arena index of the
/// enclosing frame, `None` for the global frame.
pub struct Environment {
    pub values: Vec<(String, Option<LoxType>)>,
    pub enclosing: Option<usize>,
}

/// The binding list folded into a map; a later entry for a name shadows an
/// earlier one.
pub open spec fn entries_map(s: Seq<(String, Option<LoxType>)>) -> Map<Seq<char>, Option<ValueV>>
    decreases s.len(),
{
    if s.len() == 0 {
        Map::empty()
    } else {
        entries_map(s.drop_last()).insert(s.last().0@, vview_opt(s.last().1))
    }
}

impl View for Environment {
    type V = FrameV;

    open spec fn view(&self) -> FrameV {
        FrameV {
            table: entries_map(self.values@),
            enclosing: match self.enclosing {
                Some(i) => Some(i as int),
                None => None,
            },
        }
    }
}

/// The models of a vector of frames.
pub open spec fn frames_view(fs: Seq<Environment>) -> Seq<FrameV> {
    fs.map_values(|f: Environment| f@)
}

/// Frames are well formed when every enclosing index points strictly
/// earlier in the arena, which makes every chain acyclic.
pub open spec fn wf_frames(frames: Seq<FrameV>) -> bool {
    forall|i: int|
        0 <= i < frames.len() ==> match (#[trigger] frames[i]).enclosing {
            Some(j) => 0 <= j < i,
            None => true,
        }
}

/// Walk the chain from the given frame outward and look a name up:
/// `None` when no frame in the chain binds it.
pub open spec fn chain_lookup(frames: Seq<FrameV>, idx: int, name: Seq<char>) -> Option<
    Option<ValueV>,
>
    decreases (if idx < 0 { 0int } else { idx }),
{
    if !(0 <= idx < frames.len()) {
        None
    } else if frames[idx].table.contains_key(name) {
        Some(frames[idx].table[name])
    } else {
        match frames[idx].enclosing {
            Some(j) => if 0 <= j < idx {
                chain_lookup(frames, j, name)
            } else {
                None
            },
            None => None,
        }
    }
}

/// Walk the chain from the given frame outward and overwrite the nearest
/// binding of a name: the updated frames, or `None` when no frame in the
/// chain binds it. Assignment never declares.
pub open spec fn chain_assign(
    frames: Seq<FrameV>,
    idx: int,
    name: Seq<char>,
    v: Option<ValueV>,
) -> Option<Seq<FrameV>>
    decreases (if idx < 0 { 0int } else { idx }),
{
    if !(0 <= idx < frames.len()) {
        None
    } else if frames[idx].table.contains_key(name) {
        Some(
            frames.update(
                idx,
                FrameV {
                    table: frames[idx].table.insert(name, v),
                    enclosing: frames[idx].enclosing,
                },
            ),
        )
    } else {
        match frames[idx].enclosing {
            Some(j) => if 0 <= j < idx {
                chain_assign(frames, j, name, v)
            } else {
                None
            },
            None => None,
        }
    }
}

/// Folding agrees with a scan from the end: entries at or after `i` that do
/// not bind `name` do not affect what the map says of `name`.
proof fn lemma_entries_map_take(s: Seq<(String, Option<LoxType>)>, i: int, name: Seq<char>)
    requires
        0 <= i <= s.len(),
        forall|j: int| i <= j < s.len() ==> (#[trigger] s[j]).0@ != name,
    ensures
        entries_map(s).contains_key(name) == entries_map(s.take(i)).contains_key(name),
        entries_map(s).contains_key(name) ==> entries_map(s)[name] == entries_map(s.take(i))[name],
    decreases s.len() - i,
{
    if i == s.len() {
        assert(s.take(i) =~= s);
    } else {
        lemma_entries_map_take_step(s, i + 1, name);
        lemma_entries_map_take(s, i + 1, name);
    }
}

/// One step of the scan: dropping a last entry that does not bind `name`.
proof fn lemma_entries_map_take_step(s: Seq<(String, Option<LoxType>)>, i: int, name: Seq<char>)
    requires
        1 <= i <= s.len(),
        s[i - 1].0@ != name,
    ensures
        entries_map(s.take(i)).contains_key(name) == entries_map(s.take(i - 1)).contains_key(name),
        entries_map(s.take(i)).contains_key(name) ==> entries_map(s.take(i))[name] == entries_map(
            s.take(i - 1),
        )[name],
{
    assert(s.take(i).drop_last() =~= s.take(i - 1));
    assert(s.take(i).last() == s[i - 1]);
}

/// Overwriting the last entry that binds `name` changes the map the same
/// way as inserting into it.
proof fn lemma_entries_map_update(
    s: Seq<(String, Option<LoxType>)>,
    j: int,
    p: (String, Option<LoxType>),
)
    requires
        0 <= j < s.len(),
        p.0@ == s[j].0@,
        forall|m: int| j < m < s.len() ==> (#[trigger] s[m]).0@ != p.0@,
    ensures
        entries_map(s.update(j, p)) =~= entries_map(s).insert(p.0@, vview_opt(p.1)),
    decreases s.len(),
{
    let t = s.update(j, p);
    if j == s.len() - 1 {
        assert(t.drop_last() =~= s.drop_last());
        assert(t.last() == p);
    } else {
        assert(t.drop_last() =~= s.drop_last().update(j, p));
        assert(t.last() == s.last());
        lemma_entries_map_update(s.drop_last(), j, p);
        assert(s.drop_last()[j] == s[j]);
        assert(entries_map(t) =~= entries_map(s).insert(p.0@, vview_opt(p.1)));
    }
}

impl Environment {
    /// The global frame: empty, enclosing nothing.
    pub fn new() -> (r: Self)
        ensures
            r@.table == Map::<Seq<char>, Option<ValueV>>::empty(),
            r@.enclosing is None,
    {
        Environment { values: Vec::new(), enclosing: None }
    }

    /// An empty frame chained to the given enclosing frame.
    pub fn new_with_enclosing(enclosing: usize) -> (r: Self)
        ensures
            r@.table == Map::<Seq<char>, Option<ValueV>>::empty(),
            r@.enclosing == Some(enclosing as int),
    {
        Environment { values: Vec::new(), enclosing: Some(enclosing) }
    }

    /// Bind a name in this frame, declaring it or overwriting an existing
    /// binding; re-declaration is allowed.
    pub fn define(&mut self, name: String, value: Option<LoxType>)
        ensures
            final(self)@.table == old(self)@.table.insert(name@, vview_opt(value)),
            final(self)@.enclosing == old(self)@.enclosing,
    {
        let ghost n = name@;
        let ghost vv = vview_opt(value);
        let ghost olds = self.values@;
        self.values.push((name, value));
        proof {
            assert(self.values@.drop_last() =~= olds);
            assert(entries_map(self.values@) =~= entries_map(olds).insert(n, vv));
        }
    }

    /// The position of the binding of `name` nearest the end of the list.
    fn find(&self, name: &String) -> (r: Option<usize>)
        ensures
            match r {
                Some(j) => j < self.values@.len() && self.values@[j as int].0@ == name@
                    && (forall|m: int|
                    j < m < self.values@.len() ==> (#[trigger] self.values@[m]).0@ != name@)
                    && self@.table.contains_key(name@) && self@.table[name@] == vview_opt(
                    self.values@[j as int].1,
                ),
                None => !self@.table.contains_key(name@),
            },
    {
        let n = self.values.len();
        let mut i: usize = n;
        while i > 0
            invariant
                i <= n,
                n == self.values@.len(),
                forall|m: int| i <= m < n ==> (#[trigger] self.values@[m]).0@ != name@,
            decreases i,
        {
            i = i - 1;
            if self.values[i].0 == *name {
                proof {
                    lemma_entries_map_take(self.values@, i + 1, name@);
                    assert(self.values@.take(i + 1).drop_last() =~= self.values@.take(i as int));
                    assert(self.values@.take(i + 1).last() == self.values@[i as int]);
                }
                return Some(i);
            }
        }
        proof {
            lemma_entries_map_take(self.values@, 0, name@);
            assert(self.values@.take(0) =~= Seq::<(String, Option<LoxType>)>::empty());
        }
        None
    }

    /// Look a name up through the chain that starts at frame `idx`:
    /// the bound value, or `None` on a total miss.
    pub fn get(frames: &Vec<Environment>, idx: usize, name: &String) -> (r: Option<
        Option<LoxType>,
    >)
        requires
            wf_frames(frames_view(frames@)),
            idx < frames@.len(),
        ensures
            (r is Some) == (chain_lookup(frames_view(frames@), idx as int, name@) is Some),
            r matches Some(v) ==> chain_lookup(frames_view(frames@), idx as int, name@) matches Some(
                w,
            ) && vview_opt(v) == w,
    {
        let ghost fv = frames_view(frames@);
        let mut i: usize = idx;
        loop
            invariant
                wf_frames(fv),
                fv == frames_view(frames@),
                i < frames@.len(),
                chain_lookup(fv, idx as int, name@) == chain_lookup(fv, i as int, name@),
            decreases i,
        {
            proof {
                assert(fv[i as int] == frames@[i as int]@);
            }
            match frames[i].find(name) {
                Some(j) => {
                    let v = crate::token::duplicate_value(&frames[i].values[j].1);
                    return Some(v);
                },
                None => {
                    match frames[i].enclosing {
                        Some(j) => {
                            i = j;
                        },
                        None => {
                            return None;
                        },
                    }
                },
            }
        }
    }

    /// Overwrite the nearest binding of a name through the chain that
    /// starts at frame `idx`; reports whether the name was bound at all,
    /// and never declares.
    pub fn assign(frames: &mut Vec<Environment>, idx: usize, name: &String, value: Option<LoxType>)
        -> (r: bool)
        requires
            wf_frames(frames_view(old(frames)@)),
            idx < old(frames)@.len(),
        ensures
            r == (chain_assign(frames_view(old(frames)@), idx as int, name@, vview_opt(value))
                is Some),
            r ==> (chain_assign(frames_view(old(frames)@), idx as int, name@, vview_opt(value))
                matches Some(fv) && frames_view(final(frames)@) == fv),
            !r ==> final(frames)@ == old(frames)@,
    {
        let ghost fv0 = frames_view(old(frames)@);
        let mut i: usize = idx;
        loop
            invariant
                wf_frames(fv0),
                fv0 == frames_view(frames@),
                i < frames@.len(),
                chain_assign(fv0, idx as int, name@, vview_opt(value)) == chain_assign(
                    fv0,
                    i as int,
                    name@,
                    vview_opt(value),
                ),
                frames@ == old(frames)@,
            decreases i,
        {
            proof {
                assert(fv0[i as int] == frames@[i as int]@);
            }
            match frames[i].find(name) {
                Some(j) => {
                    let ghost olds = frames@[i as int].values@;
                    let fr = &mut frames[i];
                    let ghost oldfr = *fr;
                    let e = &mut fr.values[j];
                    e.1 = value;
                    proof {
                        assert(fr.values@ =~= olds.update(
                            j as int,
                            (olds[j as int].0, value),
                        ));
                        lemma_entries_map_update(olds, j as int, (olds[j as int].0, value));
                        assert(frames_view(frames@) =~= chain_assign(
                            fv0,
                            i as int,
                            name@,
                            vview_opt(value),
                        )->Some_0);
                    }
                    return true;
                },
                None => {
                    match frames[i].enclosing {
                        Some(j) => {
                            i = j;
                        },
                        None => {
                            return false;
                        },
                    }
                },
            }
        }
    }
}

} // verus!
