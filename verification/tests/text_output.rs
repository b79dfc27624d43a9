use ityfuzz::abi::{build_output, ABIStructure, Function, ResolvedSignature};
use ityfuzz::config::{Config, FuzzerTypes, StorageFetchingMode};
use ityfuzz::disasm::{disassemble, opcode_name, usize_to_string};
use ityfuzz::u256::U256;

#[test]
fn decimal_formatting() {
    assert_eq!(usize_to_string(0), "0");
    assert_eq!(usize_to_string(7), "7");
    assert_eq!(usize_to_string(10), "10");
    assert_eq!(usize_to_string(1234), "1234");
}

#[test]
fn opcode_names() {
    assert_eq!(opcode_name(0x00), "STOP");
    assert_eq!(opcode_name(0x01), "ADD");
    assert_eq!(opcode_name(0x60), "PUSH1");
    assert_eq!(opcode_name(0x7f), "PUSH32");
    assert_eq!(opcode_name(0x80), "DUP1");
    assert_eq!(opcode_name(0xff), "SELFDESTRUCT");
    assert_eq!(opcode_name(0x0c), "unknown");
}

#[test]
fn disassemble_simple_program() {
    // PUSH1 01, PUSH1 02, ADD
    let out = disassemble(String::from("6001600201"));
    assert_eq!(out, "1 PUSH1 01\n3 PUSH1 02\n4 ADD \n");
}

#[test]
fn disassemble_truncated_push_stops() {
    // PUSH2 with only one byte of data available ends the listing
    let out = disassemble(String::from("6101"));
    assert_eq!(out, "");
}

#[test]
fn disassemble_handles_odd_and_invalid_chunks() {
    let out = disassemble(String::from("00f"));
    assert_eq!(out, "0 STOP \n1 unknown \n");
    assert_eq!(disassemble(String::from("")), "");
    assert_eq!(disassemble(String::from("zz")), "0 unknown \n");
}

#[test]
fn disassemble_accepts_upper_case_hex() {
    let out = disassemble(String::from("60FF"));
    assert_eq!(out, "1 PUSH1 FF\n");
}

#[test]
fn config_mode_parsing() {
    assert!(matches!(
        StorageFetchingMode::from_str("dump"),
        Some(StorageFetchingMode::Dump)
    ));
    assert!(matches!(
        StorageFetchingMode::from_str("all"),
        Some(StorageFetchingMode::All)
    ));
    assert!(matches!(
        StorageFetchingMode::from_str("onebyone"),
        Some(StorageFetchingMode::OneByOne)
    ));
    assert!(StorageFetchingMode::from_str("lazy").is_none());

    assert!(matches!(FuzzerTypes::from_str("cmp"), Ok(FuzzerTypes::CMP)));
    assert!(matches!(
        FuzzerTypes::from_str("dataflow"),
        Ok(FuzzerTypes::DATAFLOW)
    ));
    assert!(matches!(
        FuzzerTypes::from_str("basic"),
        Ok(FuzzerTypes::BASIC)
    ));
    match FuzzerTypes::from_str("fancy") {
        Ok(_) => panic!("unknown fuzzer type accepted"),
        Err(e) => assert_eq!(e, "Unknown fuzzer type: fancy"),
    }
}

#[test]
fn config_holds_plain_settings() {
    let config = Config {
        onchain_storage_fetching: Some(StorageFetchingMode::OneByOne),
        flashloan: false,
        concolic: false,
        fuzzer_type: FuzzerTypes::CMP,
        replay_file: None,
        corpus_path: String::from("corpus"),
        ptx_path: String::from("kernel.ptx"),
        gpu_dev: 0,
        run_forever: false,
        cov_path: String::from("cov"),
    };
    assert_eq!(config.corpus_path, "corpus");
    assert!(!config.run_forever);
}

#[test]
fn word_serialization_roundtrips() {
    let w = U256 { limb0: 0x0102, limb1: 3, limb2: 0, limb3: 0xaa00_0000_0000_0000 };
    let be = w.to_be_bytes();
    assert_eq!(be.len(), 32);
    assert_eq!(be[0], 0xaa);
    assert_eq!(be[31], 0x02);
    assert_eq!(be[30], 0x01);
    assert_eq!(U256::from_be_bytes(&be), w);

    let le = w.to_le_bytes();
    assert_eq!(le.len(), 32);
    assert_eq!(le[0], 0x02);
    assert_eq!(le[1], 0x01);
    assert_eq!(le[31], 0xaa);
}

fn resolved_function() -> Function {
    Function {
        selector: String::from("aabbccdd"),
        resolved_function: Some(ResolvedSignature {
            name: String::from("transfer"),
            inputs: vec![String::from("address"), String::from("uint256")],
        }),
        return_type: Some(String::from("bool")),
        argument_types: Vec::new(),
        payable: false,
        pure: false,
        view: false,
        errors: Vec::new(),
        events: vec![(
            String::from("deadbeef00112233"),
            Some(ResolvedSignature {
                name: String::from("Transfer"),
                inputs: vec![String::from("address"), String::from(""), String::from("uint256")],
            }),
        )],
    }
}

#[test]
fn abi_of_resolved_function() {
    let abi = build_output(vec![resolved_function()]);
    assert_eq!(abi.len(), 2);
    match &abi[0] {
        ABIStructure::Function(f) => {
            assert_eq!(f.type_, "function");
            assert_eq!(f.name, "transfer");
            assert_eq!(f.state_mutability, "nonpayable");
            assert!(!f.constant);
            assert_eq!(f.inputs.len(), 2);
            assert_eq!(f.inputs[0].name, "arg0");
            assert_eq!(f.inputs[0].type_, "address");
            assert_eq!(f.inputs[1].name, "arg1");
            assert_eq!(f.inputs[1].internal_type, "uint256");
            assert_eq!(f.outputs.len(), 1);
            assert_eq!(f.outputs[0].name, "ret0");
            assert_eq!(f.outputs[0].type_, "bool");
        },
        _ => panic!("first entry is not a function"),
    }
    // the event is written in the error shape, with empty types skipped
    // but positional names kept
    match &abi[1] {
        ABIStructure::Error(e) => {
            assert_eq!(e.type_, "event");
            assert_eq!(e.name, "Transfer");
            assert_eq!(e.inputs.len(), 2);
            assert_eq!(e.inputs[0].name, "arg0");
            assert_eq!(e.inputs[1].name, "arg2");
        },
        _ => panic!("second entry is not in the error shape"),
    }
}

#[test]
fn abi_of_unresolved_function() {
    let f = Function {
        selector: String::from("12345678"),
        resolved_function: None,
        return_type: None,
        argument_types: vec![String::from("uint256")],
        payable: true,
        pure: false,
        view: false,
        errors: vec![(String::from("0badc0de"), None)],
        events: vec![(String::from("feedface00aabbcc"), None)],
    };
    let abi = build_output(vec![f]);
    assert_eq!(abi.len(), 3);
    match &abi[0] {
        ABIStructure::Function(f) => {
            assert_eq!(f.name, "Unresolved_12345678");
            assert_eq!(f.state_mutability, "payable");
            assert_eq!(f.inputs.len(), 1);
            assert_eq!(f.inputs[0].type_, "uint256");
            assert_eq!(f.outputs.len(), 0);
        },
        _ => panic!("first entry is not a function"),
    }
    match &abi[1] {
        ABIStructure::Error(e) => {
            assert_eq!(e.type_, "error");
            assert_eq!(e.name, "CustomError_0badc0de");
            assert!(e.inputs.is_empty());
        },
        _ => panic!("second entry is not an error"),
    }
    match &abi[2] {
        ABIStructure::Error(e) => {
            assert_eq!(e.type_, "event");
            assert_eq!(e.name, "Event_feedface");
            assert!(e.inputs.is_empty());
        },
        _ => panic!("third entry is not in the error shape"),
    }
}

#[test]
fn abi_of_parameterless_pure_function_is_constant() {
    let f = Function {
        selector: String::from("00000000"),
        resolved_function: Some(ResolvedSignature {
            name: String::from("version"),
            inputs: Vec::new(),
        }),
        return_type: Some(String::from("string")),
        argument_types: Vec::new(),
        payable: false,
        pure: true,
        view: false,
        errors: Vec::new(),
        events: Vec::new(),
    };
    let abi = build_output(vec![f]);
    match &abi[0] {
        ABIStructure::Function(f) => {
            assert_eq!(f.state_mutability, "pure");
            assert!(f.constant);
        },
        _ => panic!("entry is not a function"),
    }
}
