//! The store that the schema below describes, written out as its plan lays it
//! out, and used as the generated one would be.
//!
//! store: Store;
//! model Library { has_many Checkout; has_many Patron through Checkout; }
//! model Patron { index unique email; has_many Checkout; }
//! model Checkout { belongs_to Library (on_delete = cascade); belongs_to Patron (on_delete = restrict); }

use graphlink::codegen::plan_schema;
use graphlink::tokens::{Delim, Tok};
use graphlink::{BelongsTo, Collection, HasMany, Id, SchemaDef};
use proc_macro2::{Delimiter, TokenStream, TokenTree};
use std::collections::HashMap;

pub type LibraryId = Id<Library>;
pub type PatronId = Id<Patron>;
pub type CheckoutId = Id<Checkout>;

pub struct LibraryEntity<'a> {
    pub data: &'a Library,
    pub store: &'a Store,
}

impl<'a> LibraryEntity<'a> {
    pub fn checkouts(&self) -> impl Iterator<Item = CheckoutEntity<'a>> + '_ {
        self.data.checkouts.iter().filter_map(move |&id| self.store.checkout(id))
    }

    pub fn patrons(&self) -> impl Iterator<Item = PatronEntity<'a>> + '_ {
        self.checkouts().filter_map(|child| child.patron())
    }
}

pub struct PatronEntity<'a> {
    pub data: &'a Patron,
    pub store: &'a Store,
}

impl<'a> PatronEntity<'a> {
    pub fn checkouts(&self) -> impl Iterator<Item = CheckoutEntity<'a>> + '_ {
        self.data.checkouts.iter().filter_map(move |&id| self.store.checkout(id))
    }
}

pub struct CheckoutEntity<'a> {
    pub data: &'a Checkout,
    pub store: &'a Store,
}

impl<'a> CheckoutEntity<'a> {
    pub fn library(&self) -> Option<LibraryEntity<'a>> {
        self.store.library(self.data.library.id())
    }

    pub fn patron(&self) -> Option<PatronEntity<'a>> {
        self.store.patron(self.data.patron.id())
    }
}

pub struct Store {
    pub libraries: Collection<Library>,
    pub patrons: Collection<Patron>,
    pub checkouts: Collection<Checkout>,
    pub patron_emails: HashMap<String, PatronId>,
}

impl Store {
    pub fn new() -> Self {
        Self {
            libraries: Collection::new(),
            patrons: Collection::new(),
            checkouts: Collection::new(),
            patron_emails: HashMap::new(),
        }
    }

    pub fn add_library(&mut self, item: Library) -> LibraryId {
        let child_id = self.libraries.insert(item);
        child_id
    }

    pub fn add_patron(&mut self, item: Patron) -> PatronId {
        let index_key_email = item.email.clone();
        let child_id = self.patrons.insert(item);
        self.patron_emails.insert(index_key_email, child_id);
        child_id
    }

    pub fn add_checkout(&mut self, item: Checkout) -> CheckoutId {
        let library = item.library.id();
        let patron = item.patron.id();
        let child_id = self.checkouts.insert(item);
        if let Some(parent_record) = self.libraries.get_mut(library) {
            parent_record.checkouts.push(child_id);
        }
        if let Some(parent_record) = self.patrons.get_mut(patron) {
            parent_record.checkouts.push(child_id);
        }
        child_id
    }

    pub fn library(&self, id: LibraryId) -> Option<LibraryEntity<'_>> {
        self.libraries.get(id).map(|data| LibraryEntity { data, store: self })
    }

    pub fn patron(&self, id: PatronId) -> Option<PatronEntity<'_>> {
        self.patrons.get(id).map(|data| PatronEntity { data, store: self })
    }

    pub fn get_patron_by_email(&self, email: &str) -> Option<PatronEntity<'_>> {
        let id = self.patron_emails.get(email)?;
        self.patron(*id)
    }

    pub fn checkout(&self, id: CheckoutId) -> Option<CheckoutEntity<'_>> {
        self.checkouts.get(id).map(|data| CheckoutEntity { data, store: self })
    }

    pub fn update_patron<F>(&mut self, id: PatronId, updater: F) -> Result<(), String>
    where
        F: FnOnce(&mut Patron),
    {
        let existing = self.patrons.get_mut(id).ok_or("Patron not found")?;
        let old_key = existing.email.clone();
        self.patron_emails.remove(&old_key);
        updater(existing);
        let new_key = existing.email.clone();
        self.patron_emails.insert(new_key, id);
        Ok(())
    }

    pub fn update_checkout<F>(&mut self, id: CheckoutId, updater: F) -> Result<(), String>
    where
        F: FnOnce(&mut Checkout),
    {
        let existing = self.checkouts.get_mut(id).ok_or("Checkout not found")?;
        let old_parent_0 = existing.library.id();
        let old_parent_1 = existing.patron.id();
        updater(existing);
        let new_parent_0 = existing.library.id();
        let new_parent_1 = existing.patron.id();
        if old_parent_0 != new_parent_0 {
            if let Some(parent_record) = self.libraries.get_mut(old_parent_0) {
                parent_record.checkouts.remove(id);
            }
            if let Some(parent_record) = self.libraries.get_mut(new_parent_0) {
                parent_record.checkouts.push(id);
            }
        }
        if old_parent_1 != new_parent_1 {
            if let Some(parent_record) = self.patrons.get_mut(old_parent_1) {
                parent_record.checkouts.remove(id);
            }
            if let Some(parent_record) = self.patrons.get_mut(new_parent_1) {
                parent_record.checkouts.push(id);
            }
        }
        Ok(())
    }

    pub fn can_remove_library(&self, id: LibraryId) -> Result<(), String> {
        let existing = match self.libraries.get(id) {
            Some(existing) => existing,
            None => return Ok(()),
        };
        for child_id in existing.checkouts.iter() {
            self.can_remove_checkout(*child_id)?;
        }
        Ok(())
    }

    pub fn remove_library(&mut self, id: LibraryId) -> Result<Library, String> {
        self.libraries.get(id).ok_or("Record not found")?;
        self.can_remove_library(id)?;
        let child_ids: Vec<_> = match self.libraries.get(id) {
            Some(existing) => existing.checkouts.iter().map(|id| *id).collect(),
            None => Vec::new(),
        };
        for child_id in child_ids {
            let _ = self.remove_checkout(child_id);
        }
        let existing = self.libraries.remove(id).unwrap();
        Ok(existing)
    }

    pub fn can_remove_patron(&self, id: PatronId) -> Result<(), String> {
        let existing = match self.patrons.get(id) {
            Some(existing) => existing,
            None => return Ok(()),
        };
        if existing.checkouts.iter().count() > 0 {
            return Err("Cannot delete Patron: it has active Checkouts".into());
        }
        Ok(())
    }

    pub fn remove_patron(&mut self, id: PatronId) -> Result<Patron, String> {
        self.patrons.get(id).ok_or("Record not found")?;
        self.can_remove_patron(id)?;
        let existing = self.patrons.remove(id).unwrap();
        let old_key = existing.email.clone();
        self.patron_emails.remove(&old_key);
        Ok(existing)
    }

    pub fn can_remove_checkout(&self, id: CheckoutId) -> Result<(), String> {
        let existing = match self.checkouts.get(id) {
            Some(existing) => existing,
            None => return Ok(()),
        };
        let _ = existing;
        Ok(())
    }

    pub fn remove_checkout(&mut self, id: CheckoutId) -> Result<Checkout, String> {
        self.checkouts.get(id).ok_or("Record not found")?;
        self.can_remove_checkout(id)?;
        let existing = self.checkouts.remove(id).unwrap();
        let parent_id = existing.library.id();
        if let Some(parent_record) = self.libraries.get_mut(parent_id) {
            parent_record.checkouts.remove(id);
        }
        let parent_id = existing.patron.id();
        if let Some(parent_record) = self.patrons.get_mut(parent_id) {
            parent_record.checkouts.remove(id);
        }
        Ok(existing)
    }
}

#[derive(Debug, Clone)]
pub struct Library {
    pub name: String,
    pub checkouts: HasMany<CheckoutId>,
}

impl Library {
    pub fn new(name: String) -> Self {
        Self { name, checkouts: HasMany::new() }
    }
}

#[derive(Debug, Clone)]
pub struct Patron {
    pub email: String,
    pub checkouts: HasMany<CheckoutId>,
}

impl Patron {
    pub fn new(email: String) -> Self {
        Self { email, checkouts: HasMany::new() }
    }
}

#[derive(Debug, Clone)]
pub struct Checkout {
    pub name: String,
    pub library: BelongsTo<LibraryId>,
    pub patron: BelongsTo<PatronId>,
}

impl Checkout {
    pub fn new(name: String, library_id: LibraryId, patron_id: PatronId) -> Self {
        Self {
            name,
            library: BelongsTo::new(library_id),
            patron: BelongsTo::new(patron_id),
        }
    }
}

#[test]
fn test_successful_insertion_and_linking() {
    let mut store = Store::new();

    let lib_id = store.add_library(Library::new("City Library".into()));
    let alice_id = store.add_patron(Patron::new("alice@example.com".into()));
    let bob_id = store.add_patron(Patron::new("bob@example.com".into()));

    store.add_checkout(Checkout::new("Rust Atomics".into(), lib_id, alice_id));
    store.add_checkout(Checkout::new("Zero To Production".into(), lib_id, bob_id));

    let library = store.library(lib_id).expect("Library should exist");

    assert_eq!(library.data.name, "City Library");

    let patrons: Vec<PatronEntity> = library.patrons().collect();
    assert_eq!(patrons.len(), 2);
    assert_eq!(patrons[0].data.email, "alice@example.com");
    assert_eq!(patrons[1].data.email, "bob@example.com");
}

#[test]
fn test_update_and_index() {
    let mut store = Store::new();
    let alice_id = store.add_patron(Patron::new("alice@example.com".into()));

    // 1. Fetching by the first email works
    assert!(store.get_patron_by_email("alice@example.com").is_some());

    // 2. Update the patron's name
    store
        .update_patron(alice_id, |patron| {
            patron.email = "alicia@example.com".into();
        })
        .unwrap();

    // 3. The old index is gone, and the new index works flawlessly
    assert!(store.get_patron_by_email("alice@example.com").is_none());
    assert_eq!(
        store
            .get_patron_by_email("alicia@example.com")
            .unwrap()
            .data
            .email,
        "alicia@example.com"
    );
}

#[test]
fn test_restrict_delete() {
    let mut store = Store::new();
    let lib_id = store.add_library(Library::new("City Lib".into()));
    let patron_id = store.add_patron(Patron::new("alice@example.com".into()));

    // Alice checks out a book
    store.add_checkout(Checkout::new("Rust Atomics".into(), lib_id, patron_id));

    // 1. Attempt to remove Alice (Should fail due to restrict)
    let result = store.remove_patron(patron_id);
    assert!(result.is_err());
    assert_eq!(
        result.unwrap_err(),
        "Cannot delete Patron: it has active Checkouts"
    );

    // 2. Prove Alice is still safely in the database
    assert!(store.patron(patron_id).is_some());
}

#[test]
fn test_cascade_delete() {
    let mut store = Store::new();
    let lib_id = store.add_library(Library::new("City Lib".into()));
    let patron_id = store.add_patron(Patron::new("alice@example.com".into()));

    let checkout_id = store.add_checkout(Checkout::new("Rust Atomics".into(), lib_id, patron_id));

    // 1. Remove the Library (Triggers cascade on Checkouts)
    store.remove_library(lib_id).unwrap();

    // 2. The Library is gone
    assert!(store.library(lib_id).is_none());

    // 3. The Checkout was successfully cascade-deleted
    assert!(store.checkouts.get(checkout_id).is_none());

    // 4. CRITICAL: The Checkout was also scrubbed from Alice's HasMany vector!
    let alice = store.patron(patron_id).unwrap();
    assert_eq!(alice.data.checkouts.iter().count(), 0);
}

#[test]
fn patron_can_be_removed_once_its_checkouts_are_gone() {
    let mut store = Store::new();
    let lib_id = store.add_library(Library::new("City Lib".into()));
    let patron_id = store.add_patron(Patron::new("alice@example.com".into()));
    let checkout_id = store.add_checkout(Checkout::new("Rust Atomics".into(), lib_id, patron_id));
    store.remove_checkout(checkout_id).unwrap();
    let removed = store.remove_patron(patron_id).unwrap();
    assert_eq!(removed.email, "alice@example.com");
    assert!(store.get_patron_by_email("alice@example.com").is_none());
    assert_eq!(store.library(lib_id).unwrap().checkouts().count(), 0);
}

fn flatten(ts: TokenStream, out: &mut Vec<Tok>) {
    for tt in ts {
        match tt {
            TokenTree::Ident(i) => out.push(Tok::Ident(i.to_string())),
            TokenTree::Punct(p) => out.push(Tok::Punct(p.as_char())),
            TokenTree::Literal(_) => out.push(Tok::Literal),
            TokenTree::Group(g) => {
                let d = match g.delimiter() {
                    Delimiter::Parenthesis => Delim::Paren,
                    Delimiter::Brace => Delim::Brace,
                    Delimiter::Bracket => Delim::Bracket,
                    Delimiter::None => {
                        flatten(g.stream(), out);
                        continue;
                    }
                };
                out.push(Tok::Open(d));
                flatten(g.stream(), out);
                out.push(Tok::Close(d));
            }
        }
    }
}

#[test]
fn plan_of_this_schema_is_this_store() {
    let src = "store: Store;
        model Library { has_many Checkout; has_many Patron through Checkout; }
        model Patron { index unique email; has_many Checkout; }
        model Checkout { belongs_to Library (on_delete = cascade); belongs_to Patron (on_delete = restrict); }";
    let mut toks = Vec::new();
    flatten(src.parse::<TokenStream>().unwrap(), &mut toks);
    let plan = plan_schema(&SchemaDef::parse(&toks).unwrap());

    assert_eq!(plan.store_name, "Store");
    assert_eq!(plan.id_definitions, vec!["LibraryId", "PatronId", "CheckoutId"]);
    assert_eq!(plan.init_collections, vec!["libraries", "patrons", "checkouts"]);
    assert_eq!(plan.init_indexes, vec!["patron_emails"]);

    let add_checkout = &plan.add_methods[2];
    assert_eq!(add_checkout.model.add_method, "add_checkout");
    let linked: Vec<&str> = add_checkout.parents.iter().map(|p| p.collection.as_str()).collect();
    assert_eq!(linked, vec!["libraries", "patrons"]);
    assert_eq!(plan.add_methods[1].indexes[0].map_name, "patron_emails");
    assert_eq!(plan.add_methods[1].indexes[0].key_var, "index_key_email");

    assert_eq!(plan.get_methods[1].index_getters[0].getter_name, "get_patron_by_email");
    assert_eq!(plan.update_methods[1].model.update_method, "update_patron");
    assert_eq!(plan.update_methods[1].not_found, "Patron not found");
    let relinked: Vec<&str> =
        plan.update_methods[2].parents.iter().map(|p| p.snake.as_str()).collect();
    assert_eq!(relinked, vec!["library", "patron"]);
    assert!(plan.update_methods[1].parents.is_empty());

    let remove_library = &plan.remove_methods[0];
    assert_eq!(remove_library.not_found, "Record not found");
    assert_eq!(remove_library.model.can_remove_method, "can_remove_library");
    assert_eq!(remove_library.cascade_deletes[0].can_remove_method, "can_remove_checkout");
    assert!(remove_library.restrict_checks.is_empty());
    assert_eq!(remove_library.cascade_deletes.len(), 1);
    assert_eq!(remove_library.cascade_deletes[0].remove_method, "remove_checkout");

    let remove_patron = &plan.remove_methods[1];
    assert!(remove_patron.cascade_deletes.is_empty());
    assert_eq!(remove_patron.restrict_checks.len(), 1);
    assert_eq!(remove_patron.restrict_checks[0].child.collection, "checkouts");
    assert_eq!(
        remove_patron.restrict_checks[0].message,
        "Cannot delete Patron: it has active Checkouts"
    );

    let scrubbed: Vec<&str> =
        plan.remove_methods[2].parents.iter().map(|p| p.snake.as_str()).collect();
    assert_eq!(scrubbed, vec!["library", "patron"]);
}

#[test]
fn update_moves_a_checkout_between_patrons() {
    let mut store = Store::new();
    let lib_id = store.add_library(Library::new("City Lib".into()));
    let alice = store.add_patron(Patron::new("alice@example.com".into()));
    let bob = store.add_patron(Patron::new("bob@example.com".into()));
    let c = store.add_checkout(Checkout::new("Rust Atomics".into(), lib_id, alice));

    store.update_checkout(c, |checkout| checkout.patron = BelongsTo::new(bob)).unwrap();

    assert_eq!(store.patron(alice).unwrap().checkouts().count(), 0);
    let bobs: Vec<CheckoutEntity> = store.patron(bob).unwrap().checkouts().collect();
    assert_eq!(bobs.len(), 1);
    assert_eq!(bobs[0].data.name, "Rust Atomics");
    assert_eq!(store.library(lib_id).unwrap().checkouts().count(), 1);
    // Alice has no checkout left, so she can now be removed.
    assert!(store.remove_patron(alice).is_ok());
}

#[test]
fn removing_a_missing_record_is_refused() {
    let mut store = Store::new();
    let lib_id = store.add_library(Library::new("City Lib".into()));
    store.remove_library(lib_id).unwrap();
    assert_eq!(store.remove_library(lib_id).unwrap_err(), "Record not found");
}
