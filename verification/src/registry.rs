//! The life of a parser handle: a registry issues a handle for a language,
//! keeps the parser of that language under it while it lives, and retires it
//! for good when it is destroyed.

use vstd::prelude::*;
use crate::error::{ParserError, ParserErrorView};
use crate::ontology::{lemma_supported_languages, Language, Ontology, OntologyView};

verus! {

/// The token that a caller holds for one parser. It means something to the
/// registry that issued it and to nobody else; the null token is never issued.
#[derive(Clone, Copy, Debug, PartialEq, Eq, Structural)]
pub struct CBuiltinEntityParser {
    id: usize,
}

impl View for CBuiltinEntityParser {
    type V = int;

    /// The number of the handle: 0 for the null handle, else its rank among
    /// the handles that the registry has issued, counted from 1.
    closed spec fn view(&self) -> int {
        self.id as int
    }
}

impl CBuiltinEntityParser {
    /// The null handle.
    pub fn null() -> (handle: CBuiltinEntityParser)
        ensures
            handle@ == 0,
    {
        CBuiltinEntityParser { id: 0 }
    }

    /// Whether this is the null handle.
    pub fn is_null(&self) -> (null: bool)
        ensures
            null == (self@ == 0),
    {
        self.id == 0
    }

    /// The handle as a plain number, to carry it across the boundary.
    pub fn into_raw(self) -> (raw: usize)
        ensures
            raw == self@,
    {
        self.id
    }

    /// The handle that a plain number stands for.
    pub fn from_raw(raw: usize) -> (handle: CBuiltinEntityParser)
        ensures
            handle@ == raw,
    {
        CBuiltinEntityParser { id: raw }
    }
}

/// What a live handle holds: the language it was created for and the
/// parser that it shares with the other handles of that language.
pub struct Holding<P> {
    pub language: int,
    pub parser: P,
}

/// How many of the slots hold a live handle for `language`.
pub open spec fn count_live<P>(slots: Seq<Option<Holding<P>>>, language: int) -> nat
    decreases slots.len(),
{
    if slots.len() == 0 {
        0
    } else {
        count_live(slots.drop_last(), language) + if slots.last() matches Some(held)
            && held.language == language {
            1nat
        } else {
            0nat
        }
    }
}

/// What a caller may ask the registry to do to its handles.
pub enum Operation<P> {
    /// Create a handle for the language that these bytes name; this is the
    /// parser that the provider gives for that language.
    Create(Seq<u8>, P),
    /// Destroy the handle with this number.
    Destroy(int),
}

/// A `ParserRegistry` as specifications see it.
pub struct RegistryView<P> {
    /// What the parser understands.
    pub ontology: OntologyView,
    /// One slot for each handle ever issued, in the order of issue: what the
    /// handle holds while it lives, nothing once it is destroyed. Handle
    /// number `n` owns slot `n - 1`.
    pub slots: Seq<Option<Holding<P>>>,
}

impl<P> RegistryView<P> {
    /// Every live handle holds a language of the catalogue.
    pub open spec fn wf(self) -> bool {
        forall|i: int|
            0 <= i < self.slots.len() ==> (#[trigger] self.slots[i] matches Some(held) ==> 0
                <= held.language < self.ontology.languages.len())
    }

    /// The registry has issued this handle, at some time.
    pub open spec fn is_issued(self, handle: int) -> bool {
        1 <= handle <= self.slots.len()
    }

    /// The handle was created and has not been destroyed.
    pub open spec fn is_live(self, handle: int) -> bool {
        self.is_issued(handle) && self.slots[handle - 1] is Some
    }

    /// The language of a live handle.
    pub open spec fn language_of(self, handle: int) -> int
        recommends
            self.is_live(handle),
    {
        self.slots[handle - 1]->0.language
    }

    /// The parser of a live handle.
    pub open spec fn parser_of(self, handle: int) -> P
        recommends
            self.is_live(handle),
    {
        self.slots[handle - 1]->0.parser
    }

    /// The number of live handles that share the parser of `language`.
    pub open spec fn ref_count(self, language: int) -> nat {
        count_live(self.slots, language)
    }

    /// The number that the next handle will get.
    pub open spec fn next_handle(self) -> int {
        self.slots.len() as int + 1
    }

    /// By how much an operation changes the number of owners of the
    /// parser of `language`: a handle created for it is one more, a handle
    /// of it destroyed is one fewer.
    pub open spec fn owners_gained(self, operation: Operation<P>, language: int) -> int {
        match operation {
            Operation::Create(code, _) => if self.ontology.language_of_code(code) == Some(
                language,
            ) {
                1
            } else {
                0
            },
            Operation::Destroy(handle) => if self.is_live(handle) && self.language_of(handle)
                == language {
                -1
            } else {
                0
            },
        }
    }

    /// The error that an operation meets in this state, if it is refused.
    pub open spec fn refusal(self, operation: Operation<P>) -> Option<ParserErrorView> {
        match operation {
            Operation::Create(code, _) => if self.ontology.language_of_code(code) is Some {
                None
            } else {
                Some(ParserErrorView::InvalidLanguage)
            },
            Operation::Destroy(handle) => if self.is_live(handle) {
                None
            } else {
                Some(ParserErrorView::InvalidHandle)
            },
        }
    }

    /// The registry after one operation. An operation that is refused
    /// changes nothing.
    pub open spec fn after(self, operation: Operation<P>) -> RegistryView<P> {
        if self.refusal(operation) is Some {
            self
        } else {
            match operation {
                Operation::Create(code, parser) => RegistryView {
                    ontology: self.ontology,
                    slots: self.slots.push(
                        Some(
                            Holding { language: self.ontology.language_of_code(code)->0, parser },
                        ),
                    ),
                },
                Operation::Destroy(handle) => RegistryView {
                    ontology: self.ontology,
                    slots: self.slots.update(handle - 1, None),
                },
            }
        }
    }

    /// The registry after a run of operations, the first one first.
    pub open spec fn after_all(self, operations: Seq<Operation<P>>) -> RegistryView<P>
        decreases operations.len(),
    {
        if operations.len() == 0 {
            self
        } else {
            self.after_all(operations.drop_last()).after(operations.last())
        }
    }
}

/// A new slot adds one to the count of its language and leaves the others.
pub proof fn lemma_count_live_push<P>(
    slots: Seq<Option<Holding<P>>>,
    slot: Option<Holding<P>>,
    language: int,
)
    ensures
        count_live(slots.push(slot), language) == count_live(slots, language) + if slot matches Some(
            held,
        ) && held.language == language {
            1nat
        } else {
            0nat
        },
{
    assert(slots.push(slot).drop_last() =~= slots);
}

/// Emptying a slot takes one from the count of the language it held and
/// leaves the others.
pub proof fn lemma_count_live_retire<P>(
    slots: Seq<Option<Holding<P>>>,
    index: int,
    language: int,
)
    requires
        0 <= index < slots.len(),
    ensures
        count_live(slots, language) == count_live(slots.update(index, None), language)
            + if slots[index] matches Some(held) && held.language == language {
            1nat
        } else {
            0nat
        },
    decreases slots.len(),
{
    if index == slots.len() - 1 {
        assert(slots.update(index, None).drop_last() =~= slots.drop_last());
    } else {
        lemma_count_live_retire(slots.drop_last(), index, language);
        assert(slots.update(index, None).drop_last() =~= slots.drop_last().update(index, None));
    }
}

/// Creating a handle gives the parser of its language one more owner,
/// destroying a handle gives it one owner fewer, and no operation touches
/// the count of another language.
pub proof fn lemma_ref_count_after<P>(
    state: RegistryView<P>,
    operation: Operation<P>,
    language: int,
)
    ensures
        state.after(operation).ref_count(language) == state.ref_count(language)
            + state.owners_gained(operation, language),
{
    if state.refusal(operation) is None {
        match operation {
            Operation::Create(code, parser) => {
                let held = Holding { language: state.ontology.language_of_code(code)->0, parser };
                lemma_count_live_push(state.slots, Some(held), language);
            },
            Operation::Destroy(handle) => {
                lemma_count_live_retire(state.slots, handle - 1, language);
            },
        }
    }
}

/// No operation lets a handle hold a language outside the catalogue.
pub proof fn lemma_wf_after<P>(state: RegistryView<P>, operation: Operation<P>)
    requires
        state.wf(),
    ensures
        state.after(operation).wf(),
{
    if let Operation::Create(code, _) = operation {
        lemma_supported_languages(state.ontology, code);
    }
}

/// A handle that the registry has issued and that does not live any more
/// never lives again, whatever is created or destroyed after.
pub proof fn lemma_retired_stays_retired<P>(
    state: RegistryView<P>,
    handle: int,
    later: Seq<Operation<P>>,
)
    requires
        state.is_issued(handle),
        !state.is_live(handle),
    ensures
        state.after_all(later).is_issued(handle),
        !state.after_all(later).is_live(handle),
    decreases later.len(),
{
    if later.len() > 0 {
        lemma_retired_stays_retired(state, handle, later.drop_last());
    }
}

/// Destroying a handle ends it for good: after any run of later operations
/// the handle is still not live, and destroying it again is refused as an
/// invalid handle.
pub proof fn lemma_destroyed_handle_stays_invalid<P>(
    state: RegistryView<P>,
    handle: int,
    later: Seq<Operation<P>>,
)
    requires
        state.is_live(handle),
    ensures
        !state.after(Operation::Destroy(handle)).after_all(later).is_live(handle),
        state.after(Operation::Destroy(handle)).after_all(later).refusal(
            Operation::Destroy(handle),
        ) == Some(ParserErrorView::InvalidHandle),
{
    lemma_retired_stays_retired(state.after(Operation::Destroy(handle)), handle, later);
}

/// A live handle lives, with its language and its parser, until it is
/// destroyed itself: creating handles and destroying other handles, of the
/// same language or not, does nothing to it.
pub proof fn lemma_live_until_destroyed<P>(
    state: RegistryView<P>,
    handle: int,
    later: Seq<Operation<P>>,
)
    requires
        state.is_live(handle),
        forall|i: int| 0 <= i < later.len() ==> later[i] != Operation::<P>::Destroy(handle),
    ensures
        state.after_all(later).is_live(handle),
        state.after_all(later).language_of(handle) == state.language_of(handle),
        state.after_all(later).parser_of(handle) == state.parser_of(handle),
    decreases later.len(),
{
    if later.len() > 0 {
        lemma_live_until_destroyed(state, handle, later.drop_last());
    }
}

/// A handle created for a supported code has a number that no earlier
/// handle has, and is live at once, for the language of the code and with
/// the parser that the provider gave.
pub proof fn lemma_created_handle_is_live<P>(state: RegistryView<P>, code: Seq<u8>, parser: P)
    requires
        state.ontology.language_of_code(code) is Some,
    ensures
        !state.is_issued(state.next_handle()),
        state.after(Operation::Create(code, parser)).is_live(state.next_handle()),
        Some(state.after(Operation::Create(code, parser)).language_of(state.next_handle()))
            == state.ontology.language_of_code(code),
        state.after(Operation::Create(code, parser)).parser_of(state.next_handle()) == parser,
{
}

/// What the registry keeps for a live handle.
struct Slot<P> {
    language: Language,
    parser: P,
}

/// The registry of parser handles. A live handle owns a share of the parser
/// of its language; destroying the handle gives the share up. The registry
/// never issues a number twice, so a destroyed handle is told apart from
/// every handle created after it.
pub struct ParserRegistry<P> {
    ontology: Ontology,
    slots: Vec<Option<Slot<P>>>,
}

impl<P> View for ParserRegistry<P> {
    type V = RegistryView<P>;

    closed spec fn view(&self) -> RegistryView<P> {
        RegistryView {
            ontology: self.ontology@,
            slots: Seq::new(
                self.slots@.len(),
                |i: int|
                    match self.slots@[i] {
                        Some(slot) => Some(
                            Holding { language: slot.language@, parser: slot.parser },
                        ),
                        None => None,
                    },
            ),
        }
    }
}

impl<P> ParserRegistry<P> {
    /// A registry without handles, for a parser that understands `ontology`.
    pub fn new(ontology: Ontology) -> (registry: ParserRegistry<P>)
        ensures
            registry@.ontology == ontology@,
            registry@.slots.len() == 0,
            registry@.wf(),
    {
        ParserRegistry { ontology, slots: Vec::new() }
    }

    /// What the parser behind this registry understands.
    pub fn ontology(&self) -> (ontology: &Ontology)
        ensures
            ontology@ == self@.ontology,
    {
        &self.ontology
    }

    /// How many handles the registry has issued so far, destroyed ones
    /// included.
    pub fn issued(&self) -> (count: usize)
        ensures
            count == self@.slots.len(),
    {
        self.slots.len()
    }

    /// The language of a handle, if the handle is live.
    pub fn language_of(&self, ptr: CBuiltinEntityParser) -> (language: Option<Language>)
        ensures
            match language {
                Some(l) => self@.is_live(ptr@) && l@ == self@.language_of(ptr@),
                None => !self@.is_live(ptr@),
            },
    {
        if ptr.id == 0 || ptr.id > self.slots.len() {
            None
        } else {
            match &self.slots[ptr.id - 1] {
                Some(slot) => Some(slot.language),
                None => None,
            }
        }
    }

    /// The parser of a handle, if the handle is live.
    pub fn parser_of(&self, ptr: CBuiltinEntityParser) -> (parser: Option<&P>)
        ensures
            match parser {
                Some(p) => self@.is_live(ptr@) && *p == self@.parser_of(ptr@),
                None => !self@.is_live(ptr@),
            },
    {
        if ptr.id == 0 || ptr.id > self.slots.len() {
            None
        } else {
            match &self.slots[ptr.id - 1] {
                Some(slot) => Some(&slot.parser),
                None => None,
            }
        }
    }

    /// Whether the handle was created by this registry and not yet destroyed.
    pub fn is_live(&self, ptr: CBuiltinEntityParser) -> (live: bool)
        ensures
            live == self@.is_live(ptr@),
    {
        self.language_of(ptr).is_some()
    }

    /// How many live handles share the parser of `language`.
    pub fn ref_count(&self, language: Language) -> (count: usize)
        ensures
            count == self@.ref_count(language@),
    {
        let ghost slots = self@.slots;
        let mut count: usize = 0;
        let mut i: usize = 0;
        while i < self.slots.len()
            invariant
                i <= self.slots.len(),
                slots == self@.slots,
                count <= i,
                count == count_live(slots.take(i as int), language@),
            decreases self.slots.len() - i,
        {
            proof {
                assert(slots.take(i + 1).drop_last() =~= slots.take(i as int));
            }
            match &self.slots[i] {
                Some(slot) => {
                    if slot.language.index() == language.index() {
                        count += 1;
                    }
                },
                None => {},
            }
            i += 1;
        }
        assert(slots.take(i as int) =~= slots);
        count
    }
}

/// Creates a handle for the language that `lang` names, in any case: asks
/// `get_parser` for the shared parser of that language, keeps it under a
/// new handle and writes the handle to `ptr`. An unsupported code, or one
/// that is not text, is refused; nothing is asked or written then.
pub fn create_builtin_entity_parser<P, G: FnOnce(Language) -> P>(
    registry: &mut ParserRegistry<P>,
    ptr: &mut CBuiltinEntityParser,
    lang: &[u8],
    get_parser: G,
) -> (res: Result<(), ParserError>)
    requires
        forall|language: Language|
            old(registry)@.ontology.language_of_code(lang@) == Some(language@) ==> call_requires(
                get_parser,
                (language,),
            ),
    ensures
        match old(registry)@.ontology.language_of_code(lang@) {
            Some(language) => {
                &&& res is Ok
                &&& final(ptr)@ == old(registry)@.next_handle()
                &&& exists|asked: Language, parser: P|
                    {
                        &&& asked@ == language
                        &&& call_ensures(get_parser, (asked,), parser)
                        &&& final(registry)@ == old(registry)@.after(
                            Operation::Create(lang@, parser),
                        )
                    }
            },
            None => {
                &&& res matches Err(e)
                &&& e@ == ParserErrorView::InvalidLanguage
                &&& final(registry)@ == old(registry)@
                &&& *final(ptr) == *old(ptr)
            },
        },
        old(registry)@.wf() ==> final(registry)@.wf(),
{
    match registry.ontology.language_from_code(lang) {
        None => Err(ParserError::InvalidLanguage),
        Some(language) => {
            let ghost before = registry@;
            let parser = get_parser(language);
            proof {
                if before.wf() {
                    lemma_wf_after(before, Operation::Create(lang@, parser));
                }
            }
            registry.slots.push(Some(Slot { language, parser }));
            assert(registry@.slots =~= before.slots.push(
                Some(Holding { language: language@, parser }),
            ));
            *ptr = CBuiltinEntityParser { id: registry.slots.len() };
            Ok(())
        },
    }
}

/// Destroys a handle: its share of the parser is given up, and the handle
/// is never valid again. A handle that is not live is refused.
pub fn destroy_builtin_entity_parser<P>(
    registry: &mut ParserRegistry<P>,
    ptr: CBuiltinEntityParser,
) -> (res: Result<(), ParserError>)
    ensures
        final(registry)@ == old(registry)@.after(Operation::Destroy(ptr@)),
        match old(registry)@.refusal(Operation::<P>::Destroy(ptr@)) {
            None => res is Ok,
            Some(error) => res matches Err(e) && e@ == error,
        },
        old(registry)@.wf() ==> final(registry)@.wf(),
{
    proof {
        if registry@.wf() {
            lemma_wf_after(registry@, Operation::Destroy(ptr@));
        }
    }
    match registry.language_of(ptr) {
        None => Err(ParserError::InvalidHandle),
        Some(_) => {
            let ghost before = registry@;
            registry.slots.set(ptr.id - 1, None);
            assert(registry@.slots =~= before.slots.update(ptr@ - 1, None));
            Ok(())
        },
    }
}

} // verus!
