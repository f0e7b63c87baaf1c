use thumbor::animal::{name, Animal, Cat, Dog};

#[test]
fn should_print_animal_name() {
    let cat = Cat;
    println!("{}", name(&cat));
    println!("{}", name(&cat));
}

#[test]
fn animals_tell_their_names() {
    assert_eq!("Cat", name(&Cat));
    assert_eq!("Dog", name(&Dog));
    assert_eq!("Cat", Cat.name());
    assert_eq!("Dog", Dog.name());
}
