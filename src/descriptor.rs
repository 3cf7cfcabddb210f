use vstd::prelude::*;
use protobuf::descriptor::FileDescriptorProto;
use protobuf::ProtobufError;

verus! {

#[verifier::external_type_specification]
#[verifier::external_body]
pub struct ExFileDescriptorProto(FileDescriptorProto);

#[verifier::external_type_specification]
#[verifier::external_body]
pub struct ExProtobufError(ProtobufError);

/// Whether the bytes decode as a file descriptor; decoding reads nothing
/// but the bytes.
pub uninterp spec fn decodes_as_file_descriptor(b: Seq<u8>) -> bool;

/// Relies on protobuf's `Message::parse_from_bytes` for `FileDescriptorProto`:
/// decodes a serialized file descriptor, or says why it cannot.
#[verifier::external_body]
fn parse_file_descriptor(bytes: &[u8]) -> (r: Result<FileDescriptorProto, ProtobufError>)
    ensures
        r is Ok <==> decodes_as_file_descriptor(bytes@),
{
    <FileDescriptorProto as protobuf::Message>::parse_from_bytes(bytes)
}

/// The serialized descriptor of `tensorflow/core/framework/graph.proto`.
pub open spec fn graph_proto_bytes() -> Seq<u8> {
    seq![
        10, 37, 116, 101, 110, 115, 111, 114, 102, 108, 111, 119, 47, 99, 111, 114,
        101, 47, 102, 114, 97, 109, 101, 119, 111, 114, 107, 47, 103, 114, 97, 112,
        104, 46, 112, 114, 111, 116, 111, 18, 10, 116, 101, 110, 115, 111, 114, 102,
        108, 111, 119, 26, 40, 116, 101, 110, 115, 111, 114, 102, 108, 111, 119, 47,
        99, 111, 114, 101, 47, 102, 114, 97, 109, 101, 119, 111, 114, 107, 47, 110,
        111, 100, 101, 95, 100, 101, 102, 46, 112, 114, 111, 116, 111, 26, 40, 116,
        101, 110, 115, 111, 114, 102, 108, 111, 119, 47, 99, 111, 114, 101, 47, 102,
        114, 97, 109, 101, 119, 111, 114, 107, 47, 102, 117, 110, 99, 116, 105, 111,
        110, 46, 112, 114, 111, 116, 111, 26, 40, 116, 101, 110, 115, 111, 114, 102,
        108, 111, 119, 47, 99, 111, 114, 101, 47, 102, 114, 97, 109, 101, 119, 111,
        114, 107, 47, 118, 101, 114, 115, 105, 111, 110, 115, 46, 112, 114, 111, 116,
        111, 34, 191, 1, 10, 8, 71, 114, 97, 112, 104, 68, 101, 102, 18, 39,
        10, 4, 110, 111, 100, 101, 24, 1, 32, 3, 40, 11, 50, 19, 46, 116,
        101, 110, 115, 111, 114, 102, 108, 111, 119, 46, 78, 111, 100, 101, 68, 101,
        102, 82, 4, 110, 111, 100, 101, 18, 50, 10, 8, 118, 101, 114, 115, 105,
        111, 110, 115, 24, 4, 32, 1, 40, 11, 50, 22, 46, 116, 101, 110, 115,
        111, 114, 102, 108, 111, 119, 46, 86, 101, 114, 115, 105, 111, 110, 68, 101,
        102, 82, 8, 118, 101, 114, 115, 105, 111, 110, 115, 18, 28, 10, 7, 118,
        101, 114, 115, 105, 111, 110, 24, 3, 32, 1, 40, 5, 82, 7, 118, 101,
        114, 115, 105, 111, 110, 66, 2, 24, 1, 18, 56, 10, 7, 108, 105, 98,
        114, 97, 114, 121, 24, 2, 32, 1, 40, 11, 50, 30, 46, 116, 101, 110,
        115, 111, 114, 102, 108, 111, 119, 46, 70, 117, 110, 99, 116, 105, 111, 110,
        68, 101, 102, 76, 105, 98, 114, 97, 114, 121, 82, 7, 108, 105, 98, 114,
        97, 114, 121, 66, 107, 10, 24, 111, 114, 103, 46, 116, 101, 110, 115, 111,
        114, 102, 108, 111, 119, 46, 102, 114, 97, 109, 101, 119, 111, 114, 107, 66,
        11, 71, 114, 97, 112, 104, 80, 114, 111, 116, 111, 115, 80, 1, 90, 61,
        103, 105, 116, 104, 117, 98, 46, 99, 111, 109, 47, 116, 101, 110, 115, 111,
        114, 102, 108, 111, 119, 47, 116, 101, 110, 115, 111, 114, 102, 108, 111, 119,
        47, 116, 101, 110, 115, 111, 114, 102, 108, 111, 119, 47, 103, 111, 47, 99,
        111, 114, 101, 47, 102, 114, 97, 109, 101, 119, 111, 114, 107, 248, 1, 1,
        98, 6, 112, 114, 111, 116, 111, 51,
    ]
}

/// The serialized descriptor of `tensorflow/core/framework/graph.proto`,
/// which declares `GraphDef`.
pub fn file_descriptor_proto_data() -> (r: Vec<u8>)
    ensures
        r@ == graph_proto_bytes(),
{
    vec![
        10, 37, 116, 101, 110, 115, 111, 114, 102, 108, 111, 119, 47, 99, 111, 114,
        101, 47, 102, 114, 97, 109, 101, 119, 111, 114, 107, 47, 103, 114, 97, 112,
        104, 46, 112, 114, 111, 116, 111, 18, 10, 116, 101, 110, 115, 111, 114, 102,
        108, 111, 119, 26, 40, 116, 101, 110, 115, 111, 114, 102, 108, 111, 119, 47,
        99, 111, 114, 101, 47, 102, 114, 97, 109, 101, 119, 111, 114, 107, 47, 110,
        111, 100, 101, 95, 100, 101, 102, 46, 112, 114, 111, 116, 111, 26, 40, 116,
        101, 110, 115, 111, 114, 102, 108, 111, 119, 47, 99, 111, 114, 101, 47, 102,
        114, 97, 109, 101, 119, 111, 114, 107, 47, 102, 117, 110, 99, 116, 105, 111,
        110, 46, 112, 114, 111, 116, 111, 26, 40, 116, 101, 110, 115, 111, 114, 102,
        108, 111, 119, 47, 99, 111, 114, 101, 47, 102, 114, 97, 109, 101, 119, 111,
        114, 107, 47, 118, 101, 114, 115, 105, 111, 110, 115, 46, 112, 114, 111, 116,
        111, 34, 191, 1, 10, 8, 71, 114, 97, 112, 104, 68, 101, 102, 18, 39,
        10, 4, 110, 111, 100, 101, 24, 1, 32, 3, 40, 11, 50, 19, 46, 116,
        101, 110, 115, 111, 114, 102, 108, 111, 119, 46, 78, 111, 100, 101, 68, 101,
        102, 82, 4, 110, 111, 100, 101, 18, 50, 10, 8, 118, 101, 114, 115, 105,
        111, 110, 115, 24, 4, 32, 1, 40, 11, 50, 22, 46, 116, 101, 110, 115,
        111, 114, 102, 108, 111, 119, 46, 86, 101, 114, 115, 105, 111, 110, 68, 101,
        102, 82, 8, 118, 101, 114, 115, 105, 111, 110, 115, 18, 28, 10, 7, 118,
        101, 114, 115, 105, 111, 110, 24, 3, 32, 1, 40, 5, 82, 7, 118, 101,
        114, 115, 105, 111, 110, 66, 2, 24, 1, 18, 56, 10, 7, 108, 105, 98,
        114, 97, 114, 121, 24, 2, 32, 1, 40, 11, 50, 30, 46, 116, 101, 110,
        115, 111, 114, 102, 108, 111, 119, 46, 70, 117, 110, 99, 116, 105, 111, 110,
        68, 101, 102, 76, 105, 98, 114, 97, 114, 121, 82, 7, 108, 105, 98, 114,
        97, 114, 121, 66, 107, 10, 24, 111, 114, 103, 46, 116, 101, 110, 115, 111,
        114, 102, 108, 111, 119, 46, 102, 114, 97, 109, 101, 119, 111, 114, 107, 66,
        11, 71, 114, 97, 112, 104, 80, 114, 111, 116, 111, 115, 80, 1, 90, 61,
        103, 105, 116, 104, 117, 98, 46, 99, 111, 109, 47, 116, 101, 110, 115, 111,
        114, 102, 108, 111, 119, 47, 116, 101, 110, 115, 111, 114, 102, 108, 111, 119,
        47, 116, 101, 110, 115, 111, 114, 102, 108, 111, 119, 47, 103, 111, 47, 99,
        111, 114, 101, 47, 102, 114, 97, 109, 101, 119, 111, 114, 107, 248, 1, 1,
        98, 6, 112, 114, 111, 116, 111, 51,
    ]
}

fn parse_descriptor_proto() -> (r: Option<FileDescriptorProto>)
    ensures
        r is Some <==> decodes_as_file_descriptor(graph_proto_bytes()),
{
    let data = file_descriptor_proto_data();
    match parse_file_descriptor(data.as_slice()) {
        Ok(d) => Some(d),
        Err(_) => None,
    }
}

/// The decoded descriptor of the file that declares `GraphDef`, or `None`
/// when the bytes do not decode.
pub fn file_descriptor_proto() -> (r: Option<FileDescriptorProto>)
    ensures
        r is Some <==> decodes_as_file_descriptor(graph_proto_bytes()),
{
    parse_descriptor_proto()
}

} // verus!
