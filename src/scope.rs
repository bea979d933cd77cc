use vstd::prelude::*;
use crate::ast::Identifier;
use crate::decorator::decorated;
use crate::text::{push_char, push_decimal};
use vstd::string::*;

verus! {

/// The frame size of every value, in bytes.
pub const SLOT_BYTES: usize = 8;

/// A binding as the resolver sees it.
pub struct SlotView {
    pub name: Seq<char>,
    pub generation: nat,
    pub offset: nat,
    pub initialized: bool,
}

/// The chain of scopes, flattened: the bindings of all open scopes from the
/// outermost to the innermost, where each open scope starts, and the frame
/// offset handed out last.
pub struct EnvView {
    pub slots: Seq<SlotView>,
    pub starts: Seq<nat>,
    pub offset: nat,
}

/// The index of the binding of `name` that a use sees: the latest one, -1 if there is none.
pub open spec fn find_slot(slots: Seq<SlotView>, name: Seq<char>) -> int
    decreases slots.len(),
{
    if slots.len() == 0 {
        -1
    } else if slots.last().name == name {
        slots.len() - 1
    } else {
        find_slot(slots.drop_last(), name)
    }
}

/// A binding that a use sees is one of the bindings.
pub proof fn lemma_find_slot_range(slots: Seq<SlotView>, name: Seq<char>)
    ensures
        -1 <= find_slot(slots, name) < slots.len(),
        find_slot(slots, name) >= 0 ==> slots[find_slot(slots, name)].name == name,
    decreases slots.len(),
{
    if slots.len() > 0 {
        lemma_find_slot_range(slots.drop_last(), name);
    }
}

/// The generation of the binding of `name` that a use sees, 0 if there is none.
pub open spec fn visible_generation(e: EnvView, name: Seq<char>) -> nat {
    let i = find_slot(e.slots, name);
    if i >= 0 {
        e.slots[i].generation
    } else {
        0
    }
}

/// Whether one more slot fits in the frame.
pub open spec fn can_allocate(e: EnvView) -> bool {
    e.offset + SLOT_BYTES <= usize::MAX
}

/// `e` after a new binding of `name`: the next generation after the one
/// visible, and the next slot of the frame.
pub open spec fn declared(e: EnvView, name: Seq<char>, initialized: bool) -> EnvView {
    let slot = SlotView {
        name,
        generation: visible_generation(e, name) + 1,
        offset: (e.offset + SLOT_BYTES) as nat,
        initialized,
    };
    EnvView { slots: e.slots.push(slot), starts: e.starts, offset: (e.offset + SLOT_BYTES) as nat }
}

/// `e` with a new innermost scope.
pub open spec fn opened(e: EnvView) -> EnvView {
    EnvView { slots: e.slots, starts: e.starts.push(e.slots.len()), offset: e.offset }
}

/// `e` without its innermost scope and that scope's bindings; the frame keeps its slots.
pub open spec fn closed(e: EnvView) -> EnvView {
    EnvView {
        slots: e.slots.subrange(0, e.starts.last() as int),
        starts: e.starts.drop_last(),
        offset: e.offset,
    }
}

/// `e` with binding `i` marked as holding a value.
pub open spec fn marked(e: EnvView, i: int) -> EnvView {
    let s = e.slots[i];
    EnvView {
        slots: e.slots.update(
            i,
            SlotView { name: s.name, generation: s.generation, offset: s.offset, initialized: true },
        ),
        starts: e.starts,
        offset: e.offset,
    }
}

/// The empty chain with one open scope.
pub open spec fn top_level() -> EnvView {
    EnvView { slots: Seq::empty(), starts: seq![0], offset: 0 }
}

/// Whether `e` could come from the operations above: scopes nested in order,
/// generations and offsets within the bounds that the frame gives them.
pub open spec fn env_valid(e: EnvView) -> bool {
    &&& forall|i: int| 0 <= i < e.starts.len() ==> e.starts[i] <= e.slots.len()
    &&& forall|i: int, j: int| 0 <= i <= j < e.starts.len() ==> e.starts[i] <= e.starts[j]
    &&& SLOT_BYTES * e.slots.len() <= e.offset <= usize::MAX
    &&& forall|i: int|
        0 <= i < e.slots.len() ==> 1 <= #[trigger] e.slots[i].generation <= i + 1
            && e.slots[i].offset <= e.offset
}

/// Shadowing: after a new binding of `name`, every use of `name` finds the
/// new binding, whose generation is above the one it hides; every earlier
/// binding stays as it was (the one hidden included), uses of other names
/// find what they found before, and the new slot lies beyond every slot
/// handed out before it.
pub proof fn lemma_shadowing(e: EnvView, name: Seq<char>, initialized: bool)
    requires
        env_valid(e),
        can_allocate(e),
    ensures
        ({
            let e1 = declared(e, name, initialized);
            let n = e.slots.len() as int;
            &&& find_slot(e1.slots, name) == n
            &&& e1.slots[n].generation > visible_generation(e, name)
            &&& e1.slots[n].initialized == initialized
            &&& forall|k: int| 0 <= k < n ==> #[trigger] e1.slots[k] == e.slots[k]
            &&& forall|k: int| 0 <= k < n ==> #[trigger] e.slots[k].offset < e1.slots[n].offset
            &&& forall|other: Seq<char>|
                other != name ==> #[trigger] find_slot(e1.slots, other) == find_slot(e.slots, other)
        }),
{
    let e1 = declared(e, name, initialized);
    assert forall|k: int| 0 <= k < e.slots.len() implies #[trigger] e.slots[k].offset
        < e1.slots[e.slots.len() as int].offset by {
        assert(1 <= e.slots[k].generation);
    }
    assert forall|other: Seq<char>| other != name implies #[trigger] find_slot(e1.slots, other)
        == find_slot(e.slots, other) by {
        assert(e1.slots.drop_last() =~= e.slots);
    }
}

/// What the resolver knows of a binding: its name decorated with its
/// generation, its size, its distance below the frame base, and whether it
/// holds a value.
#[derive(Debug)]
pub struct Symbol {
    pub decorated_lexeme: String,
    pub size_bytes: usize,
    pub rbp_offset: usize,
    pub initialized: bool,
}

impl Clone for Symbol {
    fn clone(&self) -> (r: Self)
        ensures
            r == *self,
    {
        Symbol {
            decorated_lexeme: self.decorated_lexeme.clone(),
            size_bytes: self.size_bytes,
            rbp_offset: self.rbp_offset,
            initialized: self.initialized,
        }
    }
}

/// Whether `sym` describes `slot`.
pub open spec fn symbol_of(sym: Symbol, slot: SlotView) -> bool {
    &&& sym.decorated_lexeme@ == decorated(slot.name, slot.generation)
    &&& sym.size_bytes == SLOT_BYTES
    &&& sym.rbp_offset == slot.offset
    &&& sym.initialized == slot.initialized
}

/// Collects the fields of a `Symbol` one by one.
pub struct SymbolBuilder {
    pub decorated_lexeme: Option<String>,
    pub size_bytes: Option<usize>,
    pub rbp_offset: Option<usize>,
    pub initialized: Option<bool>,
}

impl SymbolBuilder {
    /// A builder with no field set.
    pub fn new() -> (r: Self)
        ensures
            r.decorated_lexeme is None && r.size_bytes is None && r.rbp_offset is None
                && r.initialized is None,
    {
        SymbolBuilder { decorated_lexeme: None, size_bytes: None, rbp_offset: None, initialized: None }
    }

    pub fn decorated_lexeme(self, decorated_lexeme: String) -> (r: Self)
        ensures
            r == (SymbolBuilder { decorated_lexeme: Some(decorated_lexeme), ..self }),
    {
        SymbolBuilder { decorated_lexeme: Some(decorated_lexeme), ..self }
    }

    pub fn size_bytes(self, bytes: usize) -> (r: Self)
        ensures
            r == (SymbolBuilder { size_bytes: Some(bytes), ..self }),
    {
        SymbolBuilder { size_bytes: Some(bytes), ..self }
    }

    pub fn rbp_offset(self, offset: usize) -> (r: Self)
        ensures
            r == (SymbolBuilder { rbp_offset: Some(offset), ..self }),
    {
        SymbolBuilder { rbp_offset: Some(offset), ..self }
    }

    pub fn initialized(self, initialized: bool) -> (r: Self)
        ensures
            r == (SymbolBuilder { initialized: Some(initialized), ..self }),
    {
        SymbolBuilder { initialized: Some(initialized), ..self }
    }

    /// The symbol with the fields set; each must have been set.
    pub fn build(self) -> (r: Symbol)
        requires
            self.decorated_lexeme is Some,
            self.size_bytes is Some,
            self.rbp_offset is Some,
            self.initialized is Some,
        ensures
            r.decorated_lexeme == self.decorated_lexeme->0,
            r.size_bytes == self.size_bytes->0,
            r.rbp_offset == self.rbp_offset->0,
            r.initialized == self.initialized->0,
    {
        match (self.decorated_lexeme, self.size_bytes, self.rbp_offset, self.initialized) {
            (Some(d), Some(s), Some(o), Some(i)) => Symbol {
                decorated_lexeme: d,
                size_bytes: s,
                rbp_offset: o,
                initialized: i,
            },
            _ => {
                proof { assert(false); }
                Symbol { decorated_lexeme: String::new(), size_bytes: 0, rbp_offset: 0, initialized: false }
            },
        }
    }
}

struct Binding {
    name: String,
    generation: usize,
    symbol: Symbol,
}

/// The scopes that the resolver has open, innermost last.
pub struct Env {
    bindings: Vec<Binding>,
    scope_starts: Vec<usize>,
    current_rbp_offset: usize,
}

impl View for Env {
    type V = EnvView;

    /// The scopes as the contracts speak of them.
    closed spec fn view(&self) -> EnvView {
        EnvView {
            slots: Seq::new(
                self.bindings@.len(),
                |i: int|
                    SlotView {
                        name: self.bindings@[i].name@,
                        generation: self.bindings@[i].generation as nat,
                        offset: self.bindings@[i].symbol.rbp_offset as nat,
                        initialized: self.bindings@[i].symbol.initialized,
                    },
            ),
            starts: self.scope_starts@.map_values(|s: usize| s as nat),
            offset: self.current_rbp_offset as nat,
        }
    }
}

impl Env {

    /// Each symbol agrees with its binding, and the view is valid.
    pub closed spec fn wf(&self) -> bool {
        &&& env_valid(self.view())
        &&& forall|i: int|
            0 <= i < self.bindings@.len() ==> symbol_of(
                #[trigger] self.bindings@[i].symbol,
                self.view().slots[i],
            )
    }

    /// The chain with one empty scope: the top level of a program.
    pub fn new() -> (r: Self)
        ensures
            r.wf(),
            r.view() == top_level(),
    {
        let mut scope_starts = Vec::new();
        scope_starts.push(0);
        let r = Env { bindings: Vec::new(), scope_starts, current_rbp_offset: 0 };
        assert(r.view().slots =~= Seq::<SlotView>::empty());
        assert(r.view().starts =~= seq![0nat]);
        r
    }

    /// Whether one more slot fits in the frame.
    pub fn can_allocate(&self) -> (r: bool)
        ensures
            r == can_allocate(self@),
    {
        self.current_rbp_offset <= usize::MAX - SLOT_BYTES
    }

    /// The index of the binding of `lexeme` that a use sees.
    pub fn find(&self, lexeme: &String) -> (r: Option<usize>)
        ensures
            match r {
                Some(i) => i as int == find_slot(self@.slots, lexeme@) && i < self@.slots.len(),
                None => find_slot(self@.slots, lexeme@) == -1,
            },
    {
        let ghost slots = self@.slots;
        let mut i: usize = self.bindings.len();
        assert(slots.subrange(0, i as int) =~= slots);
        while i > 0
            invariant
                i <= slots.len(),
                slots == self@.slots,
                slots.len() == self.bindings@.len(),
                find_slot(slots.subrange(0, i as int), lexeme@) == find_slot(slots, lexeme@),
            decreases i,
        {
            assert(slots.subrange(0, i as int).drop_last() =~= slots.subrange(0, i - 1));
            if self.bindings[i - 1].name == *lexeme {
                return Some(i - 1);
            }
            i = i - 1;
        }
        assert(slots.subrange(0, 0) =~= Seq::<SlotView>::empty());
        None
    }

    /// The symbol of the binding of `lexeme` that a use sees, if there is one.
    pub fn get_symbol(&self, lexeme: &String) -> (r: Option<Symbol>)
        requires
            self.wf(),
        ensures
            -1 <= find_slot(self@.slots, lexeme@) < self@.slots.len(),
            find_slot(self@.slots, lexeme@) == -1 ==> r is None,
            find_slot(self@.slots, lexeme@) != -1 ==> (r matches Some(sym) && symbol_of(
                sym,
                self@.slots[find_slot(self@.slots, lexeme@)],
            )),
    {
        proof { lemma_find_slot_range(self@.slots, lexeme@); }
        match self.find(lexeme) {
            Some(i) => Some(self.bindings[i].symbol.clone()),
            None => None,
        }
    }

    /// Opens a scope inside the innermost one.
    pub fn open_scope(&mut self)
        requires
            old(self).wf(),
        ensures
            final(self).wf(),
            final(self)@ == opened(old(self)@),
    {
        let n = self.bindings.len();
        self.scope_starts.push(n);
        assert(self@.starts =~= opened(old(self)@).starts);
        assert(self@.slots =~= old(self)@.slots);
    }

    /// Closes the innermost scope, dropping its bindings; their slots stay taken.
    pub fn close_scope(&mut self)
        requires
            old(self).wf(),
            old(self)@.starts.len() > 0,
        ensures
            final(self).wf(),
            final(self)@ == closed(old(self)@),
    {
        let start = self.scope_starts.pop().unwrap();
        assert(old(self)@.starts[old(self)@.starts.len() - 1] == start);
        self.bindings.truncate(start);
        assert(self@.starts =~= closed(old(self)@).starts);
        assert(self@.slots =~= closed(old(self)@).slots);
    }

    fn register_symbol(&mut self, lexeme: &String, initialized: bool)
        requires
            old(self).wf(),
            can_allocate(old(self)@),
        ensures
            final(self).wf(),
            final(self)@ == declared(old(self)@, lexeme@, initialized),
    {
        let visible = match self.find(lexeme) {
            Some(i) => {
                assert(self@.slots[i as int].generation <= i + 1);
                self.bindings[i].generation
            },
            None => 0,
        };
        let generation = visible + 1;
        self.current_rbp_offset = self.current_rbp_offset + SLOT_BYTES;
        let mut name = lexeme.clone();
        push_char(&mut name, '_');
        push_decimal(&mut name, generation);
        let symbol = SymbolBuilder::new().size_bytes(SLOT_BYTES).initialized(initialized).rbp_offset(
            self.current_rbp_offset,
        ).decorated_lexeme(name).build();
        self.bindings.push(Binding { name: lexeme.clone(), generation, symbol });
        let ghost want = declared(old(self)@, lexeme@, initialized);
        assert(self@.slots =~= want.slots);
        assert(self@.starts =~= want.starts);
        assert forall|i: int| 0 <= i < self.bindings@.len() implies symbol_of(
            #[trigger] self.bindings@[i].symbol,
            self@.slots[i],
        ) by {
            if i < old(self).bindings@.len() {
                assert(self.bindings@[i] == old(self).bindings@[i]);
                assert(old(self)@.slots[i] == self@.slots[i]);
            }
        }
    }

    /// Binds `ident` in the innermost scope, holding no value yet.
    pub fn declare(&mut self, ident: &Identifier)
        requires
            old(self).wf(),
            can_allocate(old(self)@),
        ensures
            final(self).wf(),
            final(self)@ == declared(old(self)@, ident.lexeme@, false),
    {
        self.register_symbol(&ident.lexeme, false);
    }

    /// Binds `ident` in the innermost scope, holding a value.
    pub fn initialize(&mut self, ident: &Identifier)
        requires
            old(self).wf(),
            can_allocate(old(self)@),
        ensures
            final(self).wf(),
            final(self)@ == declared(old(self)@, ident.lexeme@, true),
    {
        self.register_symbol(&ident.lexeme, true);
    }

    /// Marks binding `i` as holding a value.
    pub fn mark_initialized(&mut self, i: usize)
        requires
            old(self).wf(),
            i < old(self)@.slots.len(),
        ensures
            final(self).wf(),
            final(self)@ == marked(old(self)@, i as int),
    {
        let b = &self.bindings[i];
        let nb = Binding {
            name: b.name.clone(),
            generation: b.generation,
            symbol: Symbol {
                decorated_lexeme: b.symbol.decorated_lexeme.clone(),
                size_bytes: b.symbol.size_bytes,
                rbp_offset: b.symbol.rbp_offset,
                initialized: true,
            },
        };
        self.bindings.set(i, nb);
        let ghost want = marked(old(self)@, i as int);
        assert(self@.slots =~= want.slots);
        assert(self@.starts =~= want.starts);
        assert forall|j: int| 0 <= j < self.bindings@.len() implies symbol_of(
            #[trigger] self.bindings@[j].symbol,
            self@.slots[j],
        ) by {
            if j != i {
                assert(self.bindings@[j] == old(self).bindings@[j]);
                assert(old(self)@.slots[j] == self@.slots[j]);
            }
        }
    }
}

} // verus!
