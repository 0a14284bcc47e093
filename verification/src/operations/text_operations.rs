//! The catalog of operations, indexed by identifier.

use super::chars::same_text;
use super::hex::{OperationFromHex, OperationToHex, OperationToLongHex};
use super::none::OperationNone;
use super::text::{OperationLowerCase, OperationUpperCase};
pub use super::text_operation::{TextOperation, TextOperationError, TextOperationResult};
use super::text_operation::{text_result, ErrorModel, ResultModel};
use super::web::{
    OperationDecodeBase64, OperationDecodeURL, OperationEncodeBase64, OperationEncodeBase64UrlSafe,
    OperationEncodeURL,
};
use vstd::prelude::*;

verus! {

/// One operation of the catalog. As an operation it is the one it holds.
pub enum Operation {
    Noop(OperationNone),
    EncodeBase64(OperationEncodeBase64),
    EncodeBase64UrlSafe(OperationEncodeBase64UrlSafe),
    DecodeBase64(OperationDecodeBase64),
    EncodeURL(OperationEncodeURL),
    DecodeURL(OperationDecodeURL),
    UpperCase(OperationUpperCase),
    LowerCase(OperationLowerCase),
    FromHex(OperationFromHex),
    ToHex(OperationToHex),
    ToLongHex(OperationToLongHex),
}

impl TextOperation for Operation {
    open spec fn id_view(&self) -> Seq<char> {
        match self {
            Operation::Noop(op) => op.id_view(),
            Operation::EncodeBase64(op) => op.id_view(),
            Operation::EncodeBase64UrlSafe(op) => op.id_view(),
            Operation::DecodeBase64(op) => op.id_view(),
            Operation::EncodeURL(op) => op.id_view(),
            Operation::DecodeURL(op) => op.id_view(),
            Operation::UpperCase(op) => op.id_view(),
            Operation::LowerCase(op) => op.id_view(),
            Operation::FromHex(op) => op.id_view(),
            Operation::ToHex(op) => op.id_view(),
            Operation::ToLongHex(op) => op.id_view(),
        }
    }

    open spec fn name_view(&self) -> Seq<char> {
        match self {
            Operation::Noop(op) => op.name_view(),
            Operation::EncodeBase64(op) => op.name_view(),
            Operation::EncodeBase64UrlSafe(op) => op.name_view(),
            Operation::DecodeBase64(op) => op.name_view(),
            Operation::EncodeURL(op) => op.name_view(),
            Operation::DecodeURL(op) => op.name_view(),
            Operation::UpperCase(op) => op.name_view(),
            Operation::LowerCase(op) => op.name_view(),
            Operation::FromHex(op) => op.name_view(),
            Operation::ToHex(op) => op.name_view(),
            Operation::ToLongHex(op) => op.name_view(),
        }
    }

    open spec fn converted(&self, input: Seq<char>) -> Result<ResultModel, ErrorModel> {
        match self {
            Operation::Noop(op) => op.converted(input),
            Operation::EncodeBase64(op) => op.converted(input),
            Operation::EncodeBase64UrlSafe(op) => op.converted(input),
            Operation::DecodeBase64(op) => op.converted(input),
            Operation::EncodeURL(op) => op.converted(input),
            Operation::DecodeURL(op) => op.converted(input),
            Operation::UpperCase(op) => op.converted(input),
            Operation::LowerCase(op) => op.converted(input),
            Operation::FromHex(op) => op.converted(input),
            Operation::ToHex(op) => op.converted(input),
            Operation::ToLongHex(op) => op.converted(input),
        }
    }

    fn get_id(&self) -> (id: &'static str) {
        match self {
            Operation::Noop(op) => op.get_id(),
            Operation::EncodeBase64(op) => op.get_id(),
            Operation::EncodeBase64UrlSafe(op) => op.get_id(),
            Operation::DecodeBase64(op) => op.get_id(),
            Operation::EncodeURL(op) => op.get_id(),
            Operation::DecodeURL(op) => op.get_id(),
            Operation::UpperCase(op) => op.get_id(),
            Operation::LowerCase(op) => op.get_id(),
            Operation::FromHex(op) => op.get_id(),
            Operation::ToHex(op) => op.get_id(),
            Operation::ToLongHex(op) => op.get_id(),
        }
    }

    fn get_name(&self) -> (name: &'static str) {
        match self {
            Operation::Noop(op) => op.get_name(),
            Operation::EncodeBase64(op) => op.get_name(),
            Operation::EncodeBase64UrlSafe(op) => op.get_name(),
            Operation::DecodeBase64(op) => op.get_name(),
            Operation::EncodeURL(op) => op.get_name(),
            Operation::DecodeURL(op) => op.get_name(),
            Operation::UpperCase(op) => op.get_name(),
            Operation::LowerCase(op) => op.get_name(),
            Operation::FromHex(op) => op.get_name(),
            Operation::ToHex(op) => op.get_name(),
            Operation::ToLongHex(op) => op.get_name(),
        }
    }

    fn convert(&self, input: &str) -> (outcome: Result<TextOperationResult, TextOperationError>) {
        match self {
            Operation::Noop(op) => op.convert(input),
            Operation::EncodeBase64(op) => op.convert(input),
            Operation::EncodeBase64UrlSafe(op) => op.convert(input),
            Operation::DecodeBase64(op) => op.convert(input),
            Operation::EncodeURL(op) => op.convert(input),
            Operation::DecodeURL(op) => op.convert(input),
            Operation::UpperCase(op) => op.convert(input),
            Operation::LowerCase(op) => op.convert(input),
            Operation::FromHex(op) => op.convert(input),
            Operation::ToHex(op) => op.convert(input),
            Operation::ToLongHex(op) => op.convert(input),
        }
    }
}

/// The operations of the catalog, the one that changes nothing first.
pub open spec fn catalog() -> Seq<Operation> {
    seq![
        Operation::Noop(OperationNone {}),
        Operation::EncodeBase64(OperationEncodeBase64 {}),
        Operation::EncodeBase64UrlSafe(OperationEncodeBase64UrlSafe {}),
        Operation::DecodeBase64(OperationDecodeBase64 {}),
        Operation::EncodeURL(OperationEncodeURL {}),
        Operation::DecodeURL(OperationDecodeURL {}),
        Operation::UpperCase(OperationUpperCase {}),
        Operation::LowerCase(OperationLowerCase {}),
        Operation::FromHex(OperationFromHex {}),
        Operation::ToHex(OperationToHex {}),
        Operation::ToLongHex(OperationToLongHex {}),
    ]
}

/// The identifiers that the catalog lists: those of all its operations but
/// the one that changes nothing, whose identifier is reserved.
pub open spec fn listed_ids() -> Seq<Seq<char>> {
    Seq::new(10, |i: int| catalog()[i + 1].id_view())
}

/// Whether `k` is the place of the first operation of `ops` with the
/// identifier `id`.
pub open spec fn is_first_with(ops: Seq<Operation>, id: Seq<char>, k: int) -> bool {
    &&& 0 <= k < ops.len()
    &&& ops[k].id_view() == id
    &&& forall|j: int| 0 <= j < k ==> (#[trigger] ops[j]).id_view() != id
}

/// Whether no operation of `ops` has the identifier `id`.
pub open spec fn none_with(ops: Seq<Operation>, id: Seq<char>) -> bool {
    forall|j: int| 0 <= j < ops.len() ==> (#[trigger] ops[j]).id_view() != id
}

/// The operation of the catalog with the identifier `id`.
pub open spec fn registered(id: Seq<char>) -> Option<Operation> {
    if exists|k: int| is_first_with(catalog(), id, k) {
        Some(catalog()[choose|k: int| is_first_with(catalog(), id, k)])
    } else {
        None
    }
}

/// The operation that stands for `id` in a pipeline: the one of the catalog
/// with that identifier, or the one that changes nothing where there is
/// none.
pub open spec fn resolved(id: Seq<char>) -> Operation {
    match registered(id) {
        Some(op) => op,
        None => catalog()[0],
    }
}

/// The place of the first operation of `set` with the identifier `id`.
pub fn find_operation(set: &Vec<Operation>, id: &str) -> (place: Option<usize>)
    ensures
        match place {
            Some(k) => is_first_with(set@, id@, k as int),
            None => none_with(set@, id@),
        },
{
    let mut i: usize = 0;
    while i < set.len()
        invariant
            i <= set.len(),
            forall|j: int| 0 <= j < i ==> (#[trigger] set@[j]).id_view() != id@,
        decreases set.len() - i,
    {
        if same_text(set[i].get_id(), id) {
            return Some(i);
        }
        i += 1;
    }
    None
}

/// Puts `operation` into `set` under its identifier: in the place of the
/// first operation that has that identifier, or at the end where none has
/// it.
pub fn add_operation(operation: Operation, set: &mut Vec<Operation>)
    ensures
        none_with(old(set)@, operation.id_view()) ==> final(set)@ == old(set)@.push(operation),
        forall|k: int|
            is_first_with(old(set)@, operation.id_view(), k) ==> final(set)@ == old(set)@.update(
                k,
                operation,
            ),
{
    match find_operation(set, operation.get_id()) {
        Some(k) => {
            set.set(k, operation);
        },
        None => {
            set.push(operation);
        },
    }
}

/// No two operations of the catalog share an identifier.
pub proof fn lemma_catalog_ids_distinct()
    ensures
        catalog().len() == 11,
        forall|i: int, j: int|
            0 <= i < j < catalog().len() ==> catalog()[i].id_view() != catalog()[j].id_view(),
{
    reveal_strlit("NONE");
    reveal_strlit("TO_BASE64");
    reveal_strlit("TO_URL_BASE64");
    reveal_strlit("FROM_BASE64");
    reveal_strlit("URL_ENCODE");
    reveal_strlit("URL_DECODE");
    reveal_strlit("UPPER_CASE");
    reveal_strlit("LOWER_CASE");
    reveal_strlit("FROM_HEX");
    reveal_strlit("TO_HEX");
    reveal_strlit("TO_LONG_HEX");
    let c = catalog();
    assert(c[0].id_view().len() == 4);
    assert(c[1].id_view().len() == 9);
    assert(c[2].id_view().len() == 13);
    assert(c[3].id_view().len() == 11);
    assert(c[4].id_view().len() == 10);
    assert(c[5].id_view().len() == 10);
    assert(c[6].id_view().len() == 10);
    assert(c[7].id_view().len() == 10);
    assert(c[8].id_view().len() == 8);
    assert(c[9].id_view().len() == 6);
    assert(c[10].id_view().len() == 11);
    assert(c[3].id_view()[0] != c[10].id_view()[0]);
    assert(c[4].id_view()[4] != c[5].id_view()[4]);
    assert(c[4].id_view()[1] != c[6].id_view()[1]);
    assert(c[4].id_view()[0] != c[7].id_view()[0]);
    assert(c[5].id_view()[1] != c[6].id_view()[1]);
    assert(c[5].id_view()[0] != c[7].id_view()[0]);
    assert(c[6].id_view()[0] != c[7].id_view()[0]);
    assert forall|i: int, j: int| 0 <= i < j < c.len() implies c[i].id_view() != c[j].id_view() by {
        let first = c[i].id_view();
        let second = c[j].id_view();
        if first.len() == second.len() {
            if i == 4 {
                assert(j == 5 || j == 6 || j == 7);
            } else if i == 5 {
                assert(j == 6 || j == 7);
            } else if i == 6 {
                assert(j == 7);
            } else {
                assert(i == 3 && j == 10);
            }
        }
    }
}

/// Every operation of the catalog is the one registered under its own
/// identifier.
pub proof fn lemma_catalog_is_registered(k: int)
    requires
        0 <= k < catalog().len(),
    ensures
        registered(catalog()[k].id_view()) == Some(catalog()[k]),
{
    lemma_catalog_ids_distinct();
    let id = catalog()[k].id_view();
    assert(is_first_with(catalog(), id, k));
    let found = choose|f: int| is_first_with(catalog(), id, f);
    assert(found == k);
}

/// The catalog lists ten identifiers, no two of them the same, and none of
/// them that of the operation that changes nothing, which is registered all
/// the same.
pub proof fn lemma_listed_ids()
    ensures
        listed_ids().len() == 10,
        forall|i: int, j: int| 0 <= i < j < 10 ==> listed_ids()[i] != listed_ids()[j],
        forall|i: int| 0 <= i < 10 ==> #[trigger] listed_ids()[i] != catalog()[0].id_view(),
        forall|i: int| 0 <= i < 10 ==> registered(#[trigger] listed_ids()[i]) is Some,
        registered(catalog()[0].id_view()) == Some(catalog()[0]),
{
    lemma_catalog_ids_distinct();
    lemma_catalog_is_registered(0);
    assert forall|i: int| 0 <= i < 10 implies registered(#[trigger] listed_ids()[i]) is Some by {
        lemma_catalog_is_registered(i + 1);
    }
}

/// The catalog of operations. It is built once and never changes; whoever
/// needs it is handed a reference to it.
pub struct TextOperations {
    noop_id: String,
    operations: Vec<Operation>,
    all: Vec<String>,
}

impl TextOperations {
    #[verifier::type_invariant]
    spec fn well_formed(self) -> bool {
        &&& self.operations@ == catalog()
        &&& self.noop_id@ == catalog()[0].id_view()
        &&& self.all@.len() == listed_ids().len()
        &&& forall|i: int| 0 <= i < self.all@.len() ==> (#[trigger] self.all@[i])@ == listed_ids()[i]
    }

    /// The operations that the catalog holds, in the order in which they
    /// were put into it.
    pub closed spec fn entries(&self) -> Seq<Operation> {
        self.operations@
    }

    /// The identifiers that the catalog lists, in order.
    pub closed spec fn listed(&self) -> Seq<Seq<char>> {
        Seq::new(self.all@.len(), |i: int| self.all@[i]@)
    }

    /// Builds the catalog.
    pub fn new() -> (built: Self)
        ensures
            built.entries() == catalog(),
            built.listed() == listed_ids(),
    {
        let none = OperationNone {};
        let noop_id = none.get_id().to_owned();

        let mut operations: Vec<Operation> = Vec::new();
        proof {
            lemma_catalog_ids_distinct();
        }
        add_operation(Operation::Noop(none), &mut operations);
        add_operation(Operation::EncodeBase64(OperationEncodeBase64 {}), &mut operations);
        add_operation(
            Operation::EncodeBase64UrlSafe(OperationEncodeBase64UrlSafe {}),
            &mut operations,
        );
        add_operation(Operation::DecodeBase64(OperationDecodeBase64 {}), &mut operations);
        add_operation(Operation::EncodeURL(OperationEncodeURL {}), &mut operations);
        add_operation(Operation::DecodeURL(OperationDecodeURL {}), &mut operations);
        assert(operations@ =~= catalog().take(6));
        add_operation(Operation::UpperCase(OperationUpperCase {}), &mut operations);
        add_operation(Operation::LowerCase(OperationLowerCase {}), &mut operations);
        add_operation(Operation::FromHex(OperationFromHex {}), &mut operations);
        add_operation(Operation::ToHex(OperationToHex {}), &mut operations);
        add_operation(Operation::ToLongHex(OperationToLongHex {}), &mut operations);
        assert(operations@ =~= catalog());

        let mut all: Vec<String> = Vec::new();
        let mut i: usize = 1;
        while i < operations.len()
            invariant
                1 <= i <= operations.len(),
                operations@ == catalog(),
                catalog().len() == 11,
                all@.len() == i - 1,
                forall|k: int| 0 <= k < all@.len() ==> (#[trigger] all@[k])@ == listed_ids()[k],
            decreases operations.len() - i,
        {
            all.push(operations[i].get_id().to_owned());
            i += 1;
        }
        let built = TextOperations { noop_id, operations, all };
        assert(built.listed() =~= listed_ids());
        built
    }

    /// The catalog, built anew.
    pub fn get_instance() -> (built: Self)
        ensures
            built.entries() == catalog(),
            built.listed() == listed_ids(),
    {
        TextOperations::new()
    }

    /// The operation with the identifier `id`, where the catalog has one.
    pub fn get_operation(&self, id: &str) -> (found: Option<&Operation>)
        ensures
            match found {
                Some(op) => registered(id@) == Some(*op),
                None => registered(id@) is None,
            },
    {
        proof {
            use_type_invariant(self);
        }
        match find_operation(&self.operations, id) {
            Some(k) => Some(&self.operations[k]),
            None => None,
        }
    }

    /// The operation with the identifier `name`, or the one that changes
    /// nothing where the catalog has none.
    pub fn get_operation_or_noop(&self, name: &str) -> (op: &Operation)
        ensures
            *op == resolved(name@),
    {
        match self.get_operation(name) {
            Some(op) => op,
            None => self.get_noop(),
        }
    }

    /// The operation that changes nothing.
    pub fn get_noop(&self) -> (op: &Operation)
        ensures
            *op == catalog()[0],
            registered(op.id_view()) == Some(*op),
            forall|input: Seq<char>|
                #[trigger] op.converted(input) == Ok::<ResultModel, ErrorModel>(text_result(input)),
    {
        proof {
            use_type_invariant(self);
            lemma_catalog_is_registered(0);
        }
        match self.get_operation(self.noop_id.as_str()) {
            Some(op) => op,
            None => &self.operations[0],
        }
    }

    /// The identifiers that the catalog lists.
    pub fn get_operations(&self) -> (ids: Vec<&str>)
        ensures
            ids@.len() == 10,
            ids@.len() == listed_ids().len(),
            forall|i: int| 0 <= i < ids@.len() ==> (#[trigger] ids@[i])@ == listed_ids()[i],
    {
        proof {
            use_type_invariant(self);
        }
        let mut ids: Vec<&str> = Vec::new();
        let mut i: usize = 0;
        while i < self.all.len()
            invariant
                i <= self.all.len(),
                ids@.len() == i,
                self.all@.len() == listed_ids().len(),
                forall|k: int|
                    0 <= k < self.all@.len() ==> (#[trigger] self.all@[k])@ == listed_ids()[k],
                forall|k: int| 0 <= k < ids@.len() ==> (#[trigger] ids@[k])@ == listed_ids()[k],
            decreases self.all.len() - i,
        {
            ids.push(self.all[i].as_str());
            i += 1;
        }
        ids
    }
}

} // verus!
