use textgen::catalog::{
    BankAccount, Book, Car, City, Computer, FamilyMember, Movie, Pet, Product, User, Which,
};

#[test]
fn checkpoints_map_to_their_repositories() {
    assert_eq!(Which::Eagle7b.model_id(), "RWKV/v5-Eagle-7B-HF");
    assert_eq!(Which::World1b5.model_id(), "RWKV/rwkv-5-world-1b5");
    assert_eq!(Which::World3b.model_id(), "RWKV/rwkv-5-world-3b");
    assert_eq!(Which::World6_1b6.model_id(), "paperfun/rwkv");
}

#[test]
fn checkpoints_map_to_their_revisions() {
    assert_eq!(Which::Eagle7b.revision(), "refs/pr/1");
    assert_eq!(Which::World1b5.revision(), "refs/pr/2");
    assert_eq!(Which::World3b.revision(), "refs/pr/2");
    assert_eq!(Which::World6_1b6.revision(), "main");
}

#[test]
fn record_constructors_keep_their_fields() {
    let book = Book::new("The Rust Programming Language", "Steve Klabnik and Carol Nichols");
    assert_eq!(book.title, "The Rust Programming Language");
    assert_eq!(book.author, "Steve Klabnik and Carol Nichols");

    let pet = Pet::new("Buddy", "Dog");
    assert_eq!(pet.name, "Buddy");
    assert_eq!(pet.species, "Dog");

    let car = Car::new("Toyota", "Corolla");
    assert_eq!(car.make, "Toyota");
    assert_eq!(car.model, "Corolla");

    let user = User::new("johndoe", "john@example.com");
    assert_eq!(user.username, "johndoe");
    assert_eq!(user.email, "john@example.com");

    let movie = Movie::new("Inception", "Christopher Nolan");
    assert_eq!(movie.title, "Inception");
    assert_eq!(movie.director, "Christopher Nolan");

    let city = City::new("Paris", "France");
    assert_eq!(city.name, "Paris");
    assert_eq!(city.country, "France");

    let member = FamilyMember::new("Alice", "Sister");
    assert_eq!(member.name, "Alice");
    assert_eq!(member.relation, "Sister");

    let computer = Computer::new("Apple", "M1");
    assert_eq!(computer.brand, "Apple");
    assert_eq!(computer.processor, "M1");
}

#[test]
fn priced_records_hold_cents() {
    let product = Product::new("Laptop", 99999);
    assert_eq!(product.name, "Laptop");
    assert_eq!(product.price_cents, 99999);

    let account = BankAccount::new("John Doe", 150000);
    assert_eq!(account.owner, "John Doe");
    assert_eq!(account.balance_cents, 150000);
}
