use kingdom::Country;

#[test]
fn new_country_has_no_people_and_no_king() {
    let mut country = Country::new();
    assert_eq!(country.people().len(), 0);
    assert!(country.king().is_none());
    assert!(country.mutable_king().is_none());
}

#[test]
fn enter_crowns_nobody() {
    let mut country = Country::new();
    country.enter("peter".to_string());
    country.enter("john".to_string());
    assert_eq!(country.people().len(), 2);
    assert!(country.king().is_none());
    assert!(country.mutable_king().is_none());
}

#[test]
fn enter_permits_a_name_twice() {
    let mut country = Country::new();
    country.enter("peter".to_string());
    country.enter("peter".to_string());
    assert_eq!(country.people().len(), 2);
}

#[test]
fn enter_leaves_the_crown_where_it_is() {
    let mut country = Country::new();
    country.crown("peter".to_string());
    let king = country.people().find_by_name(&"peter".to_string()).unwrap();
    country.enter("john".to_string());
    country.enter("peter".to_string());
    assert_eq!(country.king().unwrap().name(), "peter");
    assert_eq!(country.people().find_by_name(&"peter".to_string()), Some(king));
    country.mutable_king().unwrap().rename("paul".to_string());
    assert_eq!(country.people().resolve(king).unwrap().name(), "paul");
}

#[test]
fn crown_in_an_empty_country_enters_the_king() {
    let mut country = Country::new();
    country.crown("peter".to_string());
    assert_eq!(country.people().len(), 1);
    assert_eq!(country.king().unwrap().name(), "peter");
}

#[test]
fn crown_enters_somebody_when_nobody_has_the_name() {
    let mut country = Country::new();
    country.enter("peter".to_string());
    country.enter("john".to_string());
    country.crown("mary".to_string());
    assert_eq!(country.people().len(), 3);
    assert_eq!(country.king().unwrap().name(), "mary");
}

#[test]
fn crown_enters_nobody_when_somebody_has_the_name() {
    let mut country = Country::new();
    country.enter("peter".to_string());
    country.enter("john".to_string());
    country.crown("john".to_string());
    assert_eq!(country.people().len(), 2);
    assert_eq!(country.king().unwrap().name(), "john");
    country.crown("john".to_string());
    assert_eq!(country.people().len(), 2);
}

#[test]
fn crown_goes_to_the_first_of_several() {
    let mut country = Country::new();
    country.enter("john".to_string());
    country.enter("peter".to_string());
    country.enter("john".to_string());
    country.crown("john".to_string());
    country.mutable_king().unwrap().rename("king".to_string());
    let people = country.people();
    let king = people.find_by_name(&"king".to_string()).unwrap();
    let peter = people.find_by_name(&"peter".to_string()).unwrap();
    let john = people.find_by_name(&"john".to_string()).unwrap();
    assert_ne!(king, peter);
    assert_ne!(king, john);
    assert_ne!(peter, john);
    assert_eq!(people.len(), 3);
    country.mutable_king().unwrap().rename("john".to_string());
    assert_eq!(country.people().find_by_name(&"john".to_string()), Some(king));
}

#[test]
fn crown_passes_on_to_another_name() {
    let mut country = Country::new();
    country.crown("peter".to_string());
    country.crown("john".to_string());
    assert_eq!(country.king().unwrap().name(), "john");
    assert_eq!(country.people().len(), 2);
    country.crown("peter".to_string());
    assert_eq!(country.king().unwrap().name(), "peter");
    assert_eq!(country.people().len(), 2);
}

#[test]
fn king_is_found_under_the_new_name() {
    let mut country = Country::new();
    country.enter("peter".to_string());
    country.crown("john".to_string());
    country.mutable_king().unwrap().rename("jack".to_string());
    assert_eq!(country.king().unwrap().name(), "jack");
    country.enter("john".to_string());
    assert_eq!(country.king().unwrap().name(), "jack");
}

#[test]
fn renaming_the_king_changes_nobody_else() {
    let mut country = Country::new();
    country.enter("peter".to_string());
    country.crown("john".to_string());
    country.enter("mary".to_string());
    let peter = country.people().find_by_name(&"peter".to_string()).unwrap();
    let mary = country.people().find_by_name(&"mary".to_string()).unwrap();
    country.mutable_king().unwrap().rename("jack".to_string());
    assert_eq!(country.people().resolve(peter).unwrap().name(), "peter");
    assert_eq!(country.people().resolve(mary).unwrap().name(), "mary");
    assert_eq!(country.people().len(), 3);
}

#[test]
fn name_left_behind_leads_to_whoever_has_it_now() {
    let mut country = Country::new();
    country.crown("john".to_string());
    country.enter("john".to_string());
    let first = country.people().find_by_name(&"john".to_string()).unwrap();
    country.mutable_king().unwrap().rename("jack".to_string());
    let second = country.people().find_by_name(&"john".to_string()).unwrap();
    assert_ne!(first, second);
    country.crown("john".to_string());
    assert_eq!(country.people().len(), 2);
    country.mutable_king().unwrap().rename("james".to_string());
    assert_eq!(country.people().resolve(first).unwrap().name(), "jack");
    assert_eq!(country.people().resolve(second).unwrap().name(), "james");
}

#[test]
fn name_left_behind_by_everybody_enters_a_newcomer() {
    let mut country = Country::new();
    country.crown("john".to_string());
    country.mutable_king().unwrap().rename("jack".to_string());
    country.crown("john".to_string());
    assert_eq!(country.people().len(), 2);
    assert_eq!(country.king().unwrap().name(), "john");
    let jack = country.people().find_by_name(&"jack".to_string()).unwrap();
    let john = country.people().find_by_name(&"john".to_string()).unwrap();
    assert_ne!(jack, john);
}

#[test]
fn mutable_king_left_unused_changes_nothing() {
    let mut country = Country::new();
    country.enter("peter".to_string());
    country.crown("john".to_string());
    let _ = country.mutable_king();
    assert_eq!(country.king().unwrap().name(), "john");
    assert_eq!(country.people().len(), 2);
}

#[test]
fn people_shows_everybody_in_order_of_entry() {
    let mut country = Country::new();
    country.enter("a".to_string());
    country.crown("b".to_string());
    country.enter("a".to_string());
    let people = country.people();
    assert_eq!(people.len(), 3);
    let a = people.find_by_name(&"a".to_string()).unwrap();
    let b = people.find_by_name(&"b".to_string()).unwrap();
    assert_eq!(people.resolve(a).unwrap().name(), "a");
    assert_eq!(people.resolve(b).unwrap().name(), "b");
}
