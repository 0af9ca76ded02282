//! The JSON contract that the extractor writes and the renderers read:
//! entities with their columns, relations and getters, plus the services,
//! captchas, options and class extensions of the board.
//!
//! Every map of the contract is an `IndexMap` keyed by name; it keeps the order
//! in which the extractor wrote the entries, and that order is the order of the
//! generated stubs.

use crate::text::{decimal, decimal_spec};
use indexmap::IndexMap;
use vstd::prelude::*;

verus! {

#[verifier::external_type_specification]
#[verifier::external_body]
#[verifier::reject_recursive_types(K)]
#[verifier::reject_recursive_types(V)]
#[verifier::reject_recursive_types(S)]
pub struct ExIndexMap<K, V, S>(IndexMap<K, V, S>);

/// The contract version that this library reads.
pub const SUPPORTED_VERSION: u32 = 1;

#[derive(Debug)]
pub struct Contract {
    pub version: u32,
    pub generator: Option<String>,
    pub generated_at: Option<String>,
    pub xf: XfInfo,
    pub active_add_ons: Vec<String>,
    pub class_extensions: Vec<ClassExtension>,
    pub services: IndexMap<String, String>,
    pub captchas: IndexMap<String, String>,
    pub options: IndexMap<String, String>,
    pub entities: IndexMap<String, Entity>,
}

#[derive(Debug)]
pub struct ClassExtension {
    pub proxy: String,
    pub extends: String,
}

#[derive(Debug)]
pub struct XfInfo {
    pub version_id: i64,
    pub version: Option<String>,
    pub branch: Option<String>,
}

#[derive(Debug)]
pub struct Entity {
    pub short_name: String,
    pub class: String,
    pub table: Option<String>,
    pub content_type: Option<String>,
    pub primary_key: Vec<String>,
    pub finder: Option<String>,
    pub repository: Option<String>,
    pub columns: IndexMap<String, Column>,
    pub relations: IndexMap<String, Relation>,
    pub getters: IndexMap<String, Getter>,
}

#[derive(Debug)]
pub struct Column {
    pub php_type: String,
    pub nullable: bool,
    pub xf_type: String,
    pub primary: bool,
}

#[derive(Debug, Clone, Copy, PartialEq, Eq, Structural)]
pub enum Cardinality {
    One,
    Many,
}

#[derive(Debug)]
pub struct Relation {
    pub to: Cardinality,
    pub entity: String,
    pub class: Option<String>,
}

#[derive(Debug)]
pub struct Getter {
    pub php_type: String,
    pub nullable: bool,
    pub source: String,
}

/// Why a contract is refused.
#[derive(Debug, PartialEq, Eq, Structural)]
pub enum ContractError {
    /// The contract was written for another format version than `SUPPORTED_VERSION`.
    UnsupportedVersion(u32),
}

impl ContractError {
    /// The message shown for the error.
    pub fn message(&self) -> (s: String)
        ensures
            self matches ContractError::UnsupportedVersion(v) ==> s@ == "unsupported contract version "@
                + decimal_spec(v as nat) + " (this build understands version 1)"@,
    {
        match self {
            ContractError::UnsupportedVersion(v) => {
                let mut s = String::from_str("unsupported contract version ");
                let d = decimal(*v);
                s.append(d.as_str());
                s.append(" (this build understands version 1)");
                s
            },
        }
    }
}

impl Contract {
    /// Accepts a parsed contract when its format version is the supported one.
    pub fn validated(self) -> (r: Result<Contract, ContractError>)
        ensures
            self.version == SUPPORTED_VERSION ==> r == Ok::<Contract, ContractError>(self),
            self.version != SUPPORTED_VERSION ==> r == Err::<Contract, ContractError>(
                ContractError::UnsupportedVersion(self.version),
            ),
    {
        if self.version != SUPPORTED_VERSION {
            Err(ContractError::UnsupportedVersion(self.version))
        } else {
            Ok(self)
        }
    }
}

// The ordered maps of the contract. `IndexMap` keeps its entries in insertion
// order with unique keys; the names below give those entries, in that order,
// and the wrappers read them by position.

/// The entries of a name-to-class (or name-to-type) map, in order.
pub uninterp spec fn string_entries(m: IndexMap<String, String>) -> Seq<(Seq<char>, Seq<char>)>;

/// The entries of the entity map, in order.
pub uninterp spec fn entity_entries(m: IndexMap<String, Entity>) -> Seq<(Seq<char>, Entity)>;

/// The entries of an entity's column map, in order.
pub uninterp spec fn column_entries(m: IndexMap<String, Column>) -> Seq<(Seq<char>, Column)>;

/// The entries of an entity's relation map, in order.
pub uninterp spec fn relation_entries(m: IndexMap<String, Relation>) -> Seq<(Seq<char>, Relation)>;

/// The entries of an entity's getter map, in order.
pub uninterp spec fn getter_entries(m: IndexMap<String, Getter>) -> Seq<(Seq<char>, Getter)>;

/// `IndexMap::len`: the number of entries.
#[verifier::external_body]
pub(crate) fn string_count(m: &IndexMap<String, String>) -> (n: usize)
    ensures
        n == string_entries(*m).len(),
{
    m.len()
}

/// `IndexMap::get_index`: the entry at position `i`, which exists for `i < len`.
#[verifier::external_body]
pub(crate) fn string_at(m: &IndexMap<String, String>, i: usize) -> (r: (&String, &String))
    requires
        i < string_entries(*m).len(),
    ensures
        r.0@ == string_entries(*m)[i as int].0,
        r.1@ == string_entries(*m)[i as int].1,
{
    m.get_index(i).unwrap()
}

/// `IndexMap::len`: the number of entries.
#[verifier::external_body]
pub(crate) fn entity_count(m: &IndexMap<String, Entity>) -> (n: usize)
    ensures
        n == entity_entries(*m).len(),
{
    m.len()
}

/// `IndexMap::get_index`: the entry at position `i`, which exists for `i < len`.
#[verifier::external_body]
pub(crate) fn entity_at(m: &IndexMap<String, Entity>, i: usize) -> (r: (&String, &Entity))
    requires
        i < entity_entries(*m).len(),
    ensures
        r.0@ == entity_entries(*m)[i as int].0,
        *r.1 == entity_entries(*m)[i as int].1,
{
    m.get_index(i).unwrap()
}

/// `IndexMap::len`: the number of entries.
#[verifier::external_body]
pub(crate) fn column_count(m: &IndexMap<String, Column>) -> (n: usize)
    ensures
        n == column_entries(*m).len(),
{
    m.len()
}

/// `IndexMap::get_index`: the entry at position `i`, which exists for `i < len`.
#[verifier::external_body]
pub(crate) fn column_at(m: &IndexMap<String, Column>, i: usize) -> (r: (&String, &Column))
    requires
        i < column_entries(*m).len(),
    ensures
        r.0@ == column_entries(*m)[i as int].0,
        *r.1 == column_entries(*m)[i as int].1,
{
    m.get_index(i).unwrap()
}

/// `IndexMap::len`: the number of entries.
#[verifier::external_body]
pub(crate) fn relation_count(m: &IndexMap<String, Relation>) -> (n: usize)
    ensures
        n == relation_entries(*m).len(),
{
    m.len()
}

/// `IndexMap::get_index`: the entry at position `i`, which exists for `i < len`.
#[verifier::external_body]
pub(crate) fn relation_at(m: &IndexMap<String, Relation>, i: usize) -> (r: (&String, &Relation))
    requires
        i < relation_entries(*m).len(),
    ensures
        r.0@ == relation_entries(*m)[i as int].0,
        *r.1 == relation_entries(*m)[i as int].1,
{
    m.get_index(i).unwrap()
}

/// `IndexMap::len`: the number of entries.
#[verifier::external_body]
pub(crate) fn getter_count(m: &IndexMap<String, Getter>) -> (n: usize)
    ensures
        n == getter_entries(*m).len(),
{
    m.len()
}

/// `IndexMap::get_index`: the entry at position `i`, which exists for `i < len`.
#[verifier::external_body]
pub(crate) fn getter_at(m: &IndexMap<String, Getter>, i: usize) -> (r: (&String, &Getter))
    requires
        i < getter_entries(*m).len(),
    ensures
        r.0@ == getter_entries(*m)[i as int].0,
        *r.1 == getter_entries(*m)[i as int].1,
{
    m.get_index(i).unwrap()
}

} // verus!
