use vstd::prelude::*;

verus! {

/// The recurrent-backend checkpoints the loader knows, each pinned to a
/// model repository and a revision.
#[derive(Clone, Copy, Debug, PartialEq, Eq, Structural)]
pub enum Which {
    Eagle7b,
    World1b5,
    World3b,
    World6_1b6,
}

/// The repository each checkpoint is fetched from.
pub open spec fn model_id_text(w: Which) -> Seq<char> {
    match w {
        Which::Eagle7b => "RWKV/v5-Eagle-7B-HF"@,
        Which::World1b5 => "RWKV/rwkv-5-world-1b5"@,
        Which::World3b => "RWKV/rwkv-5-world-3b"@,
        Which::World6_1b6 => "paperfun/rwkv"@,
    }
}

/// The revision each checkpoint is pinned to.
pub open spec fn revision_text(w: Which) -> Seq<char> {
    match w {
        Which::Eagle7b => "refs/pr/1"@,
        Which::World1b5 => "refs/pr/2"@,
        Which::World3b => "refs/pr/2"@,
        Which::World6_1b6 => "main"@,
    }
}

impl Which {
    /// The model repository this checkpoint lives in.
    pub fn model_id(&self) -> (r: &'static str)
        ensures
            r@ == model_id_text(*self),
    {
        match self {
            Which::Eagle7b => "RWKV/v5-Eagle-7B-HF",
            Which::World1b5 => "RWKV/rwkv-5-world-1b5",
            Which::World3b => "RWKV/rwkv-5-world-3b",
            Which::World6_1b6 => "paperfun/rwkv",
        }
    }

    /// The repository revision this checkpoint is pinned to.
    pub fn revision(&self) -> (r: &'static str)
        ensures
            r@ == revision_text(*self),
    {
        match self {
            Which::Eagle7b => "refs/pr/1",
            Which::World1b5 => "refs/pr/2",
            Which::World3b => "refs/pr/2",
            Which::World6_1b6 => "main",
        }
    }
}

/// A book: a title and an author.
#[derive(Debug)]
pub struct Book {
    pub title: String,
    pub author: String,
}

impl Book {
    pub fn new(title: &str, author: &str) -> (r: Book)
        ensures
            r.title@ == title@,
            r.author@ == author@,
    {
        Book { title: title.to_owned(), author: author.to_owned() }
    }
}

/// A pet: a name and a species.
#[derive(Debug)]
pub struct Pet {
    pub name: String,
    pub species: String,
}

impl Pet {
    pub fn new(name: &str, species: &str) -> (r: Pet)
        ensures
            r.name@ == name@,
            r.species@ == species@,
    {
        Pet { name: name.to_owned(), species: species.to_owned() }
    }
}

/// A car: a make and a model.
#[derive(Debug)]
pub struct Car {
    pub make: String,
    pub model: String,
}

impl Car {
    pub fn new(make: &str, model: &str) -> (r: Car)
        ensures
            r.make@ == make@,
            r.model@ == model@,
    {
        Car { make: make.to_owned(), model: model.to_owned() }
    }
}

/// A user: a username and an email address.
#[derive(Debug)]
pub struct User {
    pub username: String,
    pub email: String,
}

impl User {
    pub fn new(username: &str, email: &str) -> (r: User)
        ensures
            r.username@ == username@,
            r.email@ == email@,
    {
        User { username: username.to_owned(), email: email.to_owned() }
    }
}

/// A movie: a title and a director.
#[derive(Debug)]
pub struct Movie {
    pub title: String,
    pub director: String,
}

impl Movie {
    pub fn new(title: &str, director: &str) -> (r: Movie)
        ensures
            r.title@ == title@,
            r.director@ == director@,
    {
        Movie { title: title.to_owned(), director: director.to_owned() }
    }
}

/// A city: a name and a country.
#[derive(Debug)]
pub struct City {
    pub name: String,
    pub country: String,
}

impl City {
    pub fn new(name: &str, country: &str) -> (r: City)
        ensures
            r.name@ == name@,
            r.country@ == country@,
    {
        City { name: name.to_owned(), country: country.to_owned() }
    }
}

/// A product: a name and a price in cents.
#[derive(Debug)]
pub struct Product {
    pub name: String,
    pub price_cents: u64,
}

impl Product {
    pub fn new(name: &str, price_cents: u64) -> (r: Product)
        ensures
            r.name@ == name@,
            r.price_cents == price_cents,
    {
        Product { name: name.to_owned(), price_cents }
    }
}

/// A family member: a name and a relation.
#[derive(Debug)]
pub struct FamilyMember {
    pub name: String,
    pub relation: String,
}

impl FamilyMember {
    pub fn new(name: &str, relation: &str) -> (r: FamilyMember)
        ensures
            r.name@ == name@,
            r.relation@ == relation@,
    {
        FamilyMember { name: name.to_owned(), relation: relation.to_owned() }
    }
}

/// A computer: a brand and a processor.
#[derive(Debug)]
pub struct Computer {
    pub brand: String,
    pub processor: String,
}

impl Computer {
    pub fn new(brand: &str, processor: &str) -> (r: Computer)
        ensures
            r.brand@ == brand@,
            r.processor@ == processor@,
    {
        Computer { brand: brand.to_owned(), processor: processor.to_owned() }
    }
}

/// A bank account: an owner and a balance in cents.
#[derive(Debug)]
pub struct BankAccount {
    pub owner: String,
    pub balance_cents: u64,
}

impl BankAccount {
    pub fn new(owner: &str, balance_cents: u64) -> (r: BankAccount)
        ensures
            r.owner@ == owner@,
            r.balance_cents == balance_cents,
    {
        BankAccount { owner: owner.to_owned(), balance_cents }
    }
}

} // verus!
