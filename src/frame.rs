//! Scopes: name tables, frames and the frame stack.
use vstd::prelude::*;
use crate::primitive::{Type, ValueV};
use crate::text::same_text;

verus! {

/// The bindings that a sequence of entries holds: a later entry for a name wins.
pub open spec fn table_map(s: Seq<(String, Type)>) -> Map<Seq<char>, ValueV>
    decreases s.len(),
{
    if s.len() == 0 {
        Map::empty()
    } else {
        table_map(s.drop_last()).insert(s.last().0@, s.last().1@)
    }
}

/// No name occurs twice among the entries.
pub open spec fn keys_distinct(s: Seq<(String, Type)>) -> bool {
    forall|i: int, j: int| 0 <= i < j < s.len() ==> s[i].0@ != s[j].0@
}

/// The bindings of `src` whose names are bound in neither `a` nor `b`.
pub open spec fn filtered(
    src: Map<Seq<char>, ValueV>,
    a: Map<Seq<char>, ValueV>,
    b: Map<Seq<char>, ValueV>,
) -> Map<Seq<char>, ValueV> {
    Map::new(|k: Seq<char>| src.contains_key(k) && !a.contains_key(k) && !b.contains_key(k), |k: Seq<char>| src[k])
}

proof fn lemma_table_contains(s: Seq<(String, Type)>, k: Seq<char>)
    ensures
        table_map(s).contains_key(k) <==> exists|i: int| 0 <= i < s.len() && #[trigger] s[i].0@ == k,
    decreases s.len(),
{
    if s.len() > 0 {
        lemma_table_contains(s.drop_last(), k);
        if table_map(s.drop_last()).contains_key(k) {
            let i = choose|i: int| 0 <= i < s.drop_last().len() && #[trigger] s.drop_last()[i].0@ == k;
            assert(s[i].0@ == k);
        }
        if exists|i: int| 0 <= i < s.len() && #[trigger] s[i].0@ == k {
            let i = choose|i: int| 0 <= i < s.len() && #[trigger] s[i].0@ == k;
            if i < s.len() - 1 {
                assert(s.drop_last()[i].0@ == k);
            }
        }
    }
}

proof fn lemma_table_index(s: Seq<(String, Type)>, i: int)
    requires
        keys_distinct(s),
        0 <= i < s.len(),
    ensures
        table_map(s).contains_key(s[i].0@),
        table_map(s)[s[i].0@] == s[i].1@,
    decreases s.len(),
{
    if i < s.len() - 1 {
        lemma_table_index(s.drop_last(), i);
    }
}

proof fn lemma_table_update(s: Seq<(String, Type)>, i: int, e: (String, Type))
    requires
        keys_distinct(s),
        0 <= i < s.len(),
        s[i].0@ == e.0@,
    ensures
        table_map(s.update(i, e)) == table_map(s).insert(e.0@, e.1@),
        keys_distinct(s.update(i, e)),
    decreases s.len(),
{
    let t = s.update(i, e);
    if i == s.len() - 1 {
        assert(t.drop_last() =~= s.drop_last());
        assert(table_map(t) =~= table_map(s).insert(e.0@, e.1@));
    } else {
        assert(t.drop_last() =~= s.drop_last().update(i, e));
        lemma_table_update(s.drop_last(), i, e);
        assert(s.last().0@ != e.0@);
        assert(table_map(t) =~= table_map(s).insert(e.0@, e.1@));
    }
}

/// A table of name bindings.
pub struct Table {
    entries: Vec<(String, Type)>,
}

impl View for Table {
    type V = Map<Seq<char>, ValueV>;

    closed spec fn view(&self) -> Map<Seq<char>, ValueV> {
        table_map(self.entries@)
    }
}

impl Table {
    /// No name has two entries.
    pub closed spec fn wf(&self) -> bool {
        keys_distinct(self.entries@)
    }

    /// An empty table.
    pub fn new() -> (r: Table)
        ensures
            r.wf(),
            r@ == Map::<Seq<char>, ValueV>::empty(),
    {
        Table { entries: Vec::new() }
    }

    /// Where the entry for `k` stands, if there is one.
    fn find(&self, k: &str) -> (r: Option<usize>)
        ensures
            match r {
                Some(i) => i < self.entries@.len() && self.entries@[i as int].0@ == k@,
                None => !self@.contains_key(k@),
            },
    {
        let mut i: usize = 0;
        while i < self.entries.len()
            invariant
                i <= self.entries@.len(),
                forall|j: int| 0 <= j < i ==> #[trigger] self.entries@[j].0@ != k@,
            decreases self.entries.len() - i,
        {
            if same_text(self.entries[i].0.as_str(), k) {
                return Some(i);
            }
            i = i + 1;
        }
        proof {
            lemma_table_contains(self.entries@, k@);
        }
        None
    }

    /// Whether `k` is bound.
    pub fn contains(&self, k: &str) -> (r: bool)
        requires
            self.wf(),
        ensures
            r == self@.contains_key(k@),
    {
        match self.find(k) {
            Some(i) => {
                proof {
                    lemma_table_index(self.entries@, i as int);
                }
                true
            },
            None => false,
        }
    }

    /// A copy of the value bound to `k`, if any.
    pub fn get(&self, k: &str) -> (r: Option<Type>)
        requires
            self.wf(),
        ensures
            match r {
                Some(v) => self@.contains_key(k@) && v@ == self@[k@],
                None => !self@.contains_key(k@),
            },
    {
        match self.find(k) {
            Some(i) => {
                proof {
                    lemma_table_index(self.entries@, i as int);
                }
                Some(self.entries[i].1.copy())
            },
            None => None,
        }
    }

    /// Binds `k` to `v`, in place of any earlier binding of `k`.
    pub fn insert(&mut self, k: String, v: Type)
        requires
            old(self).wf(),
        ensures
            final(self).wf(),
            final(self)@ == old(self)@.insert(k@, v@),
    {
        match self.find(k.as_str()) {
            Some(i) => {
                proof {
                    lemma_table_update(self.entries@, i as int, (k, v));
                }
                self.entries.set(i, (k, v));
            },
            None => {
                proof {
                    lemma_table_contains(self.entries@, k@);
                    assert(self.entries@.push((k, v)).drop_last() =~= self.entries@);
                }
                self.entries.push((k, v));
            },
        }
    }

    /// Adds the bindings of `src` whose names `a` and `b` do not bind, in place of
    /// earlier bindings of the same names.
    pub fn merge_from(&mut self, src: &Table, a: &Table, b: &Table)
        requires
            old(self).wf(),
            a.wf(),
            b.wf(),
        ensures
            final(self).wf(),
            final(self)@ == old(self)@.union_prefer_right(filtered(src@, a@, b@)),
    {
        let mut i: usize = 0;
        while i < src.entries.len()
            invariant
                i <= src.entries@.len(),
                self.wf(),
                a.wf(),
                b.wf(),
                self@ == old(self)@.union_prefer_right(
                    filtered(table_map(src.entries@.subrange(0, i as int)), a@, b@),
                ),
            decreases src.entries.len() - i,
        {
            let ghost before = src.entries@.subrange(0, i as int);
            let k = &src.entries[i].0;
            if !a.contains(k.as_str()) && !b.contains(k.as_str()) {
                self.insert(k.clone(), src.entries[i].1.copy());
            }
            i = i + 1;
            proof {
                let after = src.entries@.subrange(0, i as int);
                assert(after.drop_last() =~= before);
                assert(self@ =~= old(self)@.union_prefer_right(filtered(table_map(after), a@, b@)));
            }
        }
        proof {
            assert(src.entries@.subrange(0, i as int) =~= src.entries@);
        }
    }

    /// A table with the same bindings.
    pub fn copy(&self) -> (r: Table)
        ensures
            r.wf(),
            r@ == self@,
    {
        let mut r = Table::new();
        let none = Table::new();
        r.merge_from(self, &none, &none);
        assert(r@ =~= self@);
        r
    }
}


/// The model of a frame: its own bindings, the bindings it inherits from the
/// enclosing scopes, and the functions it sees.
pub struct FrameV {
    pub imm: Map<Seq<char>, ValueV>,
    pub mutable: Map<Seq<char>, ValueV>,
    pub inh_imm: Map<Seq<char>, ValueV>,
    pub inh_mut: Map<Seq<char>, ValueV>,
    pub funcs: Map<Seq<char>, ValueV>,
}

/// What `k` resolves to in `f`, with whether the binding is mutable: own immutable
/// bindings first, then own mutable, inherited immutable and inherited mutable ones.
pub open spec fn resolve(f: FrameV, k: Seq<char>) -> Option<(ValueV, bool)> {
    if f.imm.contains_key(k) {
        Some((f.imm[k], false))
    } else if f.mutable.contains_key(k) {
        Some((f.mutable[k], true))
    } else if f.inh_imm.contains_key(k) {
        Some((f.inh_imm[k], false))
    } else if f.inh_mut.contains_key(k) {
        Some((f.inh_mut[k], true))
    } else {
        None
    }
}

/// Whether `f` binds `k` in one of its own tables.
pub open spec fn owns(f: FrameV, k: Seq<char>) -> bool {
    f.imm.contains_key(k) || f.mutable.contains_key(k)
}

/// The frame that a new scope opens on `f`: no own bindings, every binding visible in
/// `f` inherited with its value and mutability, and the same functions.
pub open spec fn snapshot(f: FrameV) -> FrameV {
    FrameV {
        imm: Map::empty(),
        mutable: Map::empty(),
        inh_imm: filtered(f.inh_imm, f.mutable, Map::empty()).union_prefer_right(f.imm),
        inh_mut: filtered(f.inh_mut, f.inh_imm, f.imm).union_prefer_right(
            filtered(f.mutable, f.imm, Map::empty()),
        ),
        funcs: f.funcs,
    }
}

/// The own mutable bindings of `child` whose names `parent` sees.
pub open spec fn escaping(parent: FrameV, child: FrameV) -> Map<Seq<char>, ValueV> {
    Map::new(
        |k: Seq<char>| child.mutable.contains_key(k) && resolve(parent, k) is Some,
        |k: Seq<char>| child.mutable[k],
    )
}

/// `parent` once a scope opened on it, now ending as `child`, has written back the
/// mutable bindings that `parent` sees.
pub open spec fn write_back(parent: FrameV, child: FrameV) -> FrameV {
    FrameV { mutable: parent.mutable.union_prefer_right(escaping(parent, child)), ..parent }
}

/// A frame with no bindings.
pub open spec fn empty_frame() -> FrameV {
    FrameV {
        imm: Map::empty(),
        mutable: Map::empty(),
        inh_imm: Map::empty(),
        inh_mut: Map::empty(),
        funcs: Map::empty(),
    }
}

/// One scope.
pub struct Frame {
    pub iparents: Table,
    pub parents: Table,
    pub ilocals: Table,
    pub locals: Table,
    pub functions: Table,
}

impl View for Frame {
    type V = FrameV;

    open spec fn view(&self) -> FrameV {
        FrameV {
            imm: self.ilocals@,
            mutable: self.locals@,
            inh_imm: self.iparents@,
            inh_mut: self.parents@,
            funcs: self.functions@,
        }
    }
}

impl Frame {
    pub open spec fn wf(&self) -> bool {
        &&& self.iparents.wf()
        &&& self.parents.wf()
        &&& self.ilocals.wf()
        &&& self.locals.wf()
        &&& self.functions.wf()
    }

    /// A frame with no bindings.
    pub fn new() -> (r: Frame)
        ensures
            r.wf(),
            r@ == empty_frame(),
    {
        Frame {
            iparents: Table::new(),
            parents: Table::new(),
            ilocals: Table::new(),
            locals: Table::new(),
            functions: Table::new(),
        }
    }

    /// Whether this frame binds `id` in one of its own tables.
    pub fn has(&self, id: &str) -> (r: bool)
        requires
            self.wf(),
        ensures
            r == owns(self@, id@),
    {
        self.ilocals.contains(id) || self.locals.contains(id)
    }

    /// Whether this frame binds `id` as an own immutable binding.
    pub fn is_imutable(&self, id: &str) -> (r: bool)
        requires
            self.wf(),
        ensures
            r == self@.imm.contains_key(id@),
    {
        self.ilocals.contains(id)
    }

    /// What `id` resolves to, with whether its binding is mutable.
    pub fn resolve(&self, id: &str) -> (r: Option<(Type, bool)>)
        requires
            self.wf(),
        ensures
            match r {
                Some((v, m)) => resolve(self@, id@) == Some((v@, m)),
                None => resolve(self@, id@) is None,
            },
    {
        if let Some(v) = self.ilocals.get(id) {
            return Some((v, false));
        }
        if let Some(v) = self.locals.get(id) {
            return Some((v, true));
        }
        if let Some(v) = self.iparents.get(id) {
            return Some((v, false));
        }
        if let Some(v) = self.parents.get(id) {
            return Some((v, true));
        }
        None
    }

    /// The value that `id` resolves to.
    pub fn get(&self, id: &str) -> (r: Option<Type>)
        requires
            self.wf(),
        ensures
            match r {
                Some(v) => resolve(self@, id@) matches Some(p) && p.0 == v@,
                None => resolve(self@, id@) is None,
            },
    {
        match self.resolve(id) {
            Some((v, _)) => Some(v),
            None => None,
        }
    }

    /// The frame of a new scope opened on this one.
    pub fn snapshot(&self) -> (r: Frame)
        requires
            self.wf(),
        ensures
            r.wf(),
            r@ == snapshot(self@),
    {
        let none = Table::new();
        let mut iparents = Table::new();
        iparents.merge_from(&self.iparents, &self.locals, &none);
        iparents.merge_from(&self.ilocals, &none, &none);
        let mut parents = Table::new();
        parents.merge_from(&self.parents, &self.iparents, &self.ilocals);
        parents.merge_from(&self.locals, &self.ilocals, &none);
        let r = Frame {
            iparents,
            parents,
            ilocals: Table::new(),
            locals: Table::new(),
            functions: self.functions.copy(),
        };
        proof {
            assert(r@.inh_imm =~= snapshot(self@).inh_imm);
            assert(r@.inh_mut =~= snapshot(self@).inh_mut);
        }
        r
    }

    /// Writes back into this frame the own mutable bindings of `child` (a scope opened
    /// on this frame, now ending) whose names this frame sees.
    pub fn write_back(&mut self, child: &Frame)
        requires
            old(self).wf(),
            child.wf(),
        ensures
            final(self).wf(),
            final(self)@ == write_back(old(self)@, child@),
    {
        let src = &child.locals;
        let mut i: usize = 0;
        proof {
            let c = FrameV { mutable: table_map(src.entries@.subrange(0, 0)), ..child@ };
            assert(table_map(src.entries@.subrange(0, 0)) =~= Map::empty());
            assert(self@.mutable =~= write_back(old(self)@, c).mutable);
        }
        while i < src.entries.len()
            invariant
                i <= src.entries@.len(),
                self.wf(),
                self@ == write_back(
                    old(self)@,
                    FrameV { mutable: table_map(src.entries@.subrange(0, i as int)), ..child@ },
                ),
            decreases src.entries.len() - i,
        {
            let ghost before = src.entries@.subrange(0, i as int);
            let k = &src.entries[i].0;
            let seen = self.resolve(k.as_str()).is_some();
            if seen {
                self.locals.insert(k.clone(), src.entries[i].1.copy());
            }
            i = i + 1;
            proof {
                let after = src.entries@.subrange(0, i as int);
                assert(after.drop_last() =~= before);
                let c = FrameV { mutable: table_map(after), ..child@ };
                assert(self@.mutable =~= write_back(old(self)@, c).mutable);
            }
        }
        proof {
            assert(src.entries@.subrange(0, i as int) =~= src.entries@);
            assert(self@ =~= write_back(old(self)@, child@));
        }
    }
}


/// The frames below the top of `s`, the top one ending and written back into the
/// frame under it; `s` itself when it holds a single frame.
pub open spec fn pop_frames(s: Seq<FrameV>) -> Seq<FrameV> {
    if s.len() < 2 {
        s
    } else {
        s.drop_last().update(s.len() - 2, write_back(s[s.len() - 2], s.last()))
    }
}

/// The stack of scopes: never empty, the global scope at the bottom and the
/// innermost one on top.
pub struct FrameStack {
    stack: Vec<Frame>,
}

impl View for FrameStack {
    type V = Seq<FrameV>;

    open spec fn view(&self) -> Seq<FrameV> {
        self.frames().map_values(|f: Frame| f@)
    }
}

impl FrameStack {
    /// The frames, the global one first.
    pub closed spec fn frames(&self) -> Seq<Frame> {
        self.stack@
    }

    pub open spec fn wf(&self) -> bool {
        &&& self.frames().len() >= 1
        &&& forall|i: int| 0 <= i < self.frames().len() ==> (#[trigger] self.frames()[i]).wf()
    }

    /// A stack that holds one empty global frame.
    pub fn new() -> (r: FrameStack)
        ensures
            r.wf(),
            r@ == seq![empty_frame()],
    {
        let r = FrameStack { stack: vec![Frame::new()] };
        assert(r@ =~= seq![empty_frame()]);
        r
    }

    /// The number of frames.
    pub fn depth(&self) -> (r: usize)
        ensures
            r == self@.len(),
    {
        self.stack.len()
    }

    /// The innermost frame.
    pub fn top(&self) -> (r: &Frame)
        requires
            self.wf(),
        ensures
            r.wf(),
            r@ == self@.last(),
    {
        &self.stack[self.stack.len() - 1]
    }

    /// The innermost frame, to change it.
    pub fn current(&mut self) -> (r: &mut Frame)
        requires
            old(self).wf(),
        ensures
            *r == old(self).frames().last(),
            final(self).frames() == old(self).frames().update(
                old(self).frames().len() - 1,
                *final(r),
            ),
    {
        let n = self.stack.len();
        &mut self.stack[n - 1]
    }

    /// Opens `block_scope` as the innermost frame.
    pub fn push(&mut self, block_scope: Frame)
        requires
            old(self).wf(),
            block_scope.wf(),
        ensures
            final(self).wf(),
            final(self)@ == old(self)@.push(block_scope@),
    {
        self.stack.push(block_scope);
        assert(self@ =~= old(self)@.push(block_scope@));
    }

    /// Closes the innermost frame: its own mutable bindings whose names the frame under
    /// it sees are written back there. Returns the closed frame.
    pub fn pop(&mut self) -> (r: Frame)
        requires
            old(self).wf(),
            old(self)@.len() >= 2,
        ensures
            final(self).wf(),
            final(self)@ == pop_frames(old(self)@),
            r@ == old(self)@.last(),
    {
        let old_top = self.stack.pop().unwrap();
        let mut under = self.stack.pop().unwrap();
        under.write_back(&old_top);
        self.stack.push(under);
        proof {
            assert(self@ =~= pop_frames(old(self)@));
            assert forall|i: int| 0 <= i < self.frames().len() implies (#[trigger] self.frames()[i]).wf() by {
                if i < self.frames().len() - 1 {
                    assert(self.frames()[i] == old(self).frames()[i]);
                }
            }
        }
        old_top
    }

    /// Drops the frames above the first `n`, writing nothing back.
    pub fn truncate(&mut self, n: usize)
        requires
            old(self).wf(),
            1 <= n,
        ensures
            final(self).wf(),
            final(self)@ == if n <= old(self)@.len() { old(self)@.subrange(0, n as int) } else { old(self)@ },
    {
        self.stack.truncate(n);
        assert(n <= old(self)@.len() ==> self@ =~= old(self)@.subrange(0, n as int));
        assert(n > old(self)@.len() ==> self@ =~= old(self)@);
    }
}

} // verus!
