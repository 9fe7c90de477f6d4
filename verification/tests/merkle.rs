use blockchain::ledger::Blockchain;
use blockchain::mining::LedgerError;
use blockchain::records::Transaction;

fn tx(sender: &str, receiver: &str, amount: &str) -> Transaction {
    Transaction {
        sender: sender.to_string(),
        receiver: receiver.to_string(),
        amount: amount.to_string(),
    }
}

fn sample() -> Vec<Transaction> {
    vec![
        tx("Root", "minerA", "100.0"),
        tx("Alice", "Bob", "10.0"),
        tx("Carol", "Dave", "2.5"),
        tx("Eve", "Frank", "7.25"),
        tx("Gina", "Hal", "1.0"),
        tx("Ivy", "Jon", "3.0"),
    ]
}

#[test]
fn root_of_one_transaction_joins_its_leaf_with_itself() {
    let list = vec![tx("Root", "minerA", "100.0")];
    let leaf = list[0].digest();
    let joined = format!("\"{}{}\"", leaf, leaf);
    let root = Blockchain::get_merkle(&list).unwrap();
    assert_eq!(root, Blockchain::hash(&joined));
    assert_eq!(root, "17b6d6cf8a2de3329e5e365cdd8f56d58506156f6302a2610ee5b29f58d3");
}

#[test]
fn root_of_two_transactions() {
    let list = sample()[..2].to_vec();
    assert_eq!(
        Blockchain::get_merkle(&list).unwrap(),
        "3c2eeacf54beca14e9c75fe319cc61e49d4e7575e390eb2691252655cedffd3"
    );
}

#[test]
fn root_of_three_transactions() {
    let list = sample()[..3].to_vec();
    assert_eq!(
        Blockchain::get_merkle(&list).unwrap(),
        "3944e01a0c528cc556f884db29c6bff90fa47a3467ab78e93a4acfdcf484"
    );
}

#[test]
fn root_of_five_transactions() {
    let list = sample()[..5].to_vec();
    assert_eq!(
        Blockchain::get_merkle(&list).unwrap(),
        "f59dfa43fb411b5680e55bbf7a28bf445f1e7ca15a6d1fe1866792f5465268"
    );
}

#[test]
fn root_of_six_transactions_follows_the_queue() {
    let list = sample();
    assert_eq!(
        Blockchain::get_merkle(&list).unwrap(),
        "6c224bc26d30eef4ebd295d9dd112d7cdd75568f8be843a93d66133ceef89"
    );
}

#[test]
fn root_of_no_transaction_is_an_error() {
    assert_eq!(Blockchain::get_merkle(&Vec::new()), Err(LedgerError::EmptyTransactionSet));
}

#[test]
fn root_is_repeatable_and_depends_on_order() {
    let list = sample();
    assert_eq!(Blockchain::get_merkle(&list), Blockchain::get_merkle(&list.clone()));
    let mut swapped = sample();
    swapped.swap(0, 1);
    assert_ne!(Blockchain::get_merkle(&list), Blockchain::get_merkle(&swapped));
}

#[test]
fn odd_list_repeats_its_last_leaf_and_even_list_does_not() {
    let odd = sample()[..3].to_vec();
    let mut repeated = odd.clone();
    repeated.push(odd[2].clone());
    assert_eq!(Blockchain::get_merkle(&odd), Blockchain::get_merkle(&repeated));

    let even = sample()[..2].to_vec();
    let mut longer = even.clone();
    longer.push(even[1].clone());
    assert_ne!(Blockchain::get_merkle(&even), Blockchain::get_merkle(&longer));
}
