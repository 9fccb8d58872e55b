use neonchain::blockchain::Blockchain;
use neonchain::node::Node;

#[test]
fn init_starts_with_genesis_and_no_peers() {
    let node = Node::init();
    assert!(node.peers.is_empty());
    assert_eq!(node.blockchain.blocks.len(), 1);
    assert_eq!(node.blockchain.blocks[0].data, "Neon genesis!");
}

#[test]
fn mint_appends_through_the_node() {
    let mut node = Node::init();
    let minted = node.mint("hello".to_owned());
    assert_eq!(minted.index, 1);
    assert_eq!(minted.data, "hello");
    assert_eq!(node.blockchain.blocks.len(), 2);
    assert!(Blockchain::check_integrity(&node.blockchain.blocks).is_ok());
}

#[test]
fn connect_to_peer_keeps_registration_order() {
    let mut node = Node::init();
    node.connect_to_peer("10.0.0.1:80".to_owned());
    node.connect_to_peer("10.0.0.2:80".to_owned());
    node.connect_to_peer("10.0.0.1:80".to_owned());
    assert_eq!(node.peers, vec!["10.0.0.1:80", "10.0.0.2:80", "10.0.0.1:80"]);
    assert_eq!(node.blockchain.blocks.len(), 1);
}

#[test]
fn replace_chain_through_the_node() {
    let mut node = Node::init();
    node.connect_to_peer("10.0.0.1:80".to_owned());
    let mut other = Node::init();
    other.mint("A".to_owned());
    other.mint("B".to_owned());
    assert_eq!(node.replace_chain(&other.blockchain.blocks), Ok(()));
    assert_eq!(node.blockchain.blocks.len(), 3);
    assert_eq!(node.peers.len(), 1);
    assert_eq!(node.replace_chain(&other.blockchain.blocks), Err(()));
    assert_eq!(node.blockchain.blocks.len(), 3);
}
