use vstd::prelude::*;

verus! {

/// The node's BLE service.
pub const SERVICE_UUID: u128 = 0x12345678_1234_1234_1234_123456789ABC;

/// The characteristic that receives commands.
pub const COMMAND_UUID: u128 = 0x12345678_1234_1234_1234_123456789ABC;

/// The characteristic that carries responses.
pub const RESPONSE_UUID: u128 = 0x12345678_1234_1234_1234_123456789ABD;

/// The characteristic that carries notifications.
pub const NOTIFICATION_UUID: u128 = 0x12345678_1234_1234_1234_123456789ABE;

/// Events reported by the Bluetooth link.
#[derive(Debug, Clone)]
pub enum BluetoothEvent {
    DeviceDiscovered(String),
    DeviceConnected(String),
    DeviceDisconnected(String),
    DataReceived(Vec<u8>),
    Error(String),
}

/// Whether a characteristic is one of the node's own.
pub fn is_node_characteristic(uuid: u128) -> (r: bool)
    ensures
        r <==> (uuid == COMMAND_UUID || uuid == RESPONSE_UUID || uuid == NOTIFICATION_UUID),
{
    uuid == COMMAND_UUID || uuid == RESPONSE_UUID || uuid == NOTIFICATION_UUID
}

/// The node's characteristics among `uuids`, in their order.
pub fn node_characteristics(uuids: &Vec<u128>) -> (r: Vec<u128>)
    ensures
        r@ == uuids@.filter(|u: u128| u == COMMAND_UUID || u == RESPONSE_UUID || u == NOTIFICATION_UUID),
{
    let ghost pred = |u: u128| u == COMMAND_UUID || u == RESPONSE_UUID || u == NOTIFICATION_UUID;
    let mut out: Vec<u128> = Vec::new();
    let mut i: usize = 0;
    while i < uuids.len()
        invariant
            i <= uuids@.len(),
            pred == (|u: u128| u == COMMAND_UUID || u == RESPONSE_UUID || u == NOTIFICATION_UUID),
            out@ == uuids@.subrange(0, i as int).filter(pred),
        decreases uuids@.len() - i,
    {
        let ghost pre = uuids@.subrange(0, i as int + 1);
        assert(pre.drop_last() =~= uuids@.subrange(0, i as int));
        reveal_with_fuel(Seq::filter, 1);
        if is_node_characteristic(uuids[i]) {
            out.push(uuids[i]);
        }
        i = i + 1;
    }
    assert(uuids@.subrange(0, i as int) =~= uuids@);
    out
}

} // verus!
