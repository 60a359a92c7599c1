//! Connection status of nodes.

use vstd::prelude::*;

verus! {

/// Error of the connection-status operations.
#[derive(Debug, Clone, Copy, PartialEq, Eq, Structural)]
pub enum ConnectionError {
    IndexOutOfBounds,
}

/// Marks a node connected.
pub fn connect_node(is_connected: &mut Vec<bool>, node: usize) -> (r: Result<(), ConnectionError>)
    ensures
        final(is_connected)@.len() == old(is_connected)@.len(),
        r is Ok <==> node < old(is_connected)@.len(),
        node < old(is_connected)@.len() ==> final(is_connected)@ == old(is_connected)@.update(
            node as int,
            true,
        ),
        node >= old(is_connected)@.len() ==> final(is_connected)@ == old(is_connected)@,
{
    if node < is_connected.len() {
        is_connected[node] = true;
        Ok(())
    } else {
        Err(ConnectionError::IndexOutOfBounds)
    }
}

/// Marks a node disconnected.
pub fn disconnect_node(is_connected: &mut Vec<bool>, node: usize) -> (r: Result<
    (),
    ConnectionError,
>)
    ensures
        final(is_connected)@.len() == old(is_connected)@.len(),
        r is Ok <==> node < old(is_connected)@.len(),
        node < old(is_connected)@.len() ==> final(is_connected)@ == old(is_connected)@.update(
            node as int,
            false,
        ),
        node >= old(is_connected)@.len() ==> final(is_connected)@ == old(is_connected)@,
{
    if node < is_connected.len() {
        is_connected[node] = false;
        Ok(())
    } else {
        Err(ConnectionError::IndexOutOfBounds)
    }
}

/// True exactly when the node exists and is connected.
pub fn node_is_connected(is_connected: &Vec<bool>, node: usize) -> (r: bool)
    ensures
        r == (node < is_connected@.len() && is_connected@[node as int]),
{
    if node < is_connected.len() {
        is_connected[node]
    } else {
        false
    }
}

/// Connects every node.
pub fn set_all_nodes_connected(is_connected: &mut Vec<bool>, size: usize)
    requires
        old(is_connected)@.len() == size,
    ensures
        final(is_connected)@.len() == size,
        forall|i: int| 0 <= i < size ==> final(is_connected)@[i],
{
    let mut i: usize = 0;
    while i < size
        invariant
            is_connected@.len() == size,
            i <= size,
            forall|k: int| 0 <= k < i ==> is_connected@[k],
        decreases size - i,
    {
        is_connected[i] = true;
        i = i + 1;
    }
}

} // verus!
