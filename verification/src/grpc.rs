use vstd::prelude::*;

use crate::buffer::ByteBuffer;

verus! {

/// The gRPC calls that upload a stream of buffers to the company.
#[derive(PartialEq, Eq, Structural, Clone, Copy, Debug)]
pub enum GrpcSendCall {
    SendECompanyKeys,
    SendUPartnerKeys,
    SendUPartnerFeature,
}

/// The gRPC calls that download a stream of buffers from the company.
#[derive(PartialEq, Eq, Structural, Clone, Copy, Debug)]
pub enum GrpcRecvCall {
    RecvUCompanyKeys,
}

/// The upload call that a data name selects; other names have none.
pub open spec fn grpc_send_of(name: Seq<char>) -> Option<GrpcSendCall> {
    if name == "e_company_keys"@ {
        Some(GrpcSendCall::SendECompanyKeys)
    } else if name == "u_partner_keys"@ {
        Some(GrpcSendCall::SendUPartnerKeys)
    } else if name == "u_partner_feature"@ {
        Some(GrpcSendCall::SendUPartnerFeature)
    } else {
        None
    }
}

/// The download call that a data name selects; other names have none.
pub open spec fn grpc_recv_of(name: Seq<char>) -> Option<GrpcRecvCall> {
    if name == "u_company_keys"@ {
        Some(GrpcRecvCall::RecvUCompanyKeys)
    } else {
        None
    }
}

/// The upload call for a data name, `None` for a name that has none.
pub fn send_call(name: &String) -> (call: Option<GrpcSendCall>)
    ensures
        call == grpc_send_of(name@),
{
    if *name == String::from_str("e_company_keys") {
        Some(GrpcSendCall::SendECompanyKeys)
    } else if *name == String::from_str("u_partner_keys") {
        Some(GrpcSendCall::SendUPartnerKeys)
    } else if *name == String::from_str("u_partner_feature") {
        Some(GrpcSendCall::SendUPartnerFeature)
    } else {
        None
    }
}

/// The download call for a data name, `None` for a name that has none.
pub fn recv_call(name: &String) -> (call: Option<GrpcRecvCall>)
    ensures
        call == grpc_recv_of(name@),
{
    if *name == String::from_str("u_company_keys") {
        Some(GrpcRecvCall::RecvUCompanyKeys)
    } else {
        None
    }
}

/// The call that uploads the data named `name`. No call exists for any
/// other name ("wrong data type"); `send_call` tells a caller beforehand.
pub fn send(name: &String) -> (call: GrpcSendCall)
    requires
        grpc_send_of(name@) is Some,
    ensures
        call == grpc_send_of(name@).unwrap(),
{
    send_call(name).unwrap()
}

/// Stores the buffers downloaded for the data named `name`: whatever `data`
/// held before is replaced by them, in the order received. Returns the call
/// that downloads them, the only one made for that name. No call exists for
/// any other name ("wrong data type"); `recv_call` tells a caller
/// beforehand.
pub fn recv(name: &String, data: &mut Vec<ByteBuffer>, received: Vec<ByteBuffer>) -> (call: GrpcRecvCall)
    requires
        grpc_recv_of(name@) is Some,
    ensures
        call == grpc_recv_of(name@).unwrap(),
        call == GrpcRecvCall::RecvUCompanyKeys,
        final(data)@ == received@,
{
    let call = recv_call(name).unwrap();
    data.clear();
    let mut received = received;
    data.append(&mut received);
    call
}


/// Law: the upload calls are chosen by the same three data names as the
/// REST upload routes, each name its own call, and only `u_company_keys`
/// downloads.
pub proof fn lemma_grpc_calls_by_name(name: Seq<char>, other: Seq<char>)
    ensures
        grpc_send_of(name) is Some <==> crate::rest::rest_route_of(name) is Some,
        (grpc_send_of(name) is Some && grpc_send_of(other) is Some && name != other)
            ==> grpc_send_of(name) != grpc_send_of(other),
        grpc_recv_of(name) is Some <==> name == "u_company_keys"@,
        grpc_recv_of(name) is Some ==> grpc_send_of(name) is None,
{
    reveal_strlit("e_company_keys");
    reveal_strlit("u_partner_keys");
    reveal_strlit("u_partner_feature");
    reveal_strlit("u_company_keys");
    assert("e_company_keys"@[0] != "u_partner_keys"@[0]);
    assert("e_company_keys"@ != "u_partner_keys"@);
    assert("e_company_keys"@ != "u_partner_feature"@);
    assert("u_partner_keys"@.len() != "u_partner_feature"@.len());
    assert("u_partner_keys"@ != "u_partner_feature"@);
    assert("u_company_keys"@[0] != "e_company_keys"@[0]);
    assert("u_company_keys"@ != "e_company_keys"@);
    assert("u_company_keys"@[2] != "u_partner_keys"@[2]);
    assert("u_company_keys"@ != "u_partner_keys"@);
    assert("u_company_keys"@ != "u_partner_feature"@);
}

} // verus!
