use applechu::hook_table::{dll_matches, hook_module, hook_module_ordinals, import_directory, modules_to_hook, IatPatch};
use applechu::iohook::{
    complete_overlapped, fallthrough_call, fallthrough_hr, next_after, read_file_finish, seek_distance,
    split_position, transfer_args_valid, HandlerChain, RealCall, ERROR_IO_PENDING,
};
use applechu::path_hook::{kernel_hook_names, push as push_path_hook, shlwapi_hook_names, PathHooks};
use applechu::proc_addr::{
    gpa_passes_through, lookup_detour, lookup_load_override_a, lookup_override, push as push_table,
    push_get_proc_override, push_load_override_a, HookSymbol, OrdinalHookSymbol, ProcAddrRegistry,
};
use applechu::reg_hook::{
    canonical_path, enum_value, open_key_request, push_key, query_info, query_value, resolve_key_id, EnumReply,
    OpenDecision, RegValue, ValueRequest, VirtualRegistry, ERROR_FILE_NOT_FOUND, ERROR_MORE_DATA, HKEY_LOCAL_MACHINE,
    REG_DWORD, REG_SZ,
};
use applechu::setupapi::{hid_guid, DetailStep, InterfaceStep, PhantomHid, FAKE_DEVICE_INFO_SET};
use applechu::tree_walk::{TreeWalk, WalkRequest};
use applechu::uart_irp::IrpOp;
use applechu::x86_decoder::{instruction_len, instruction_span};

fn le32(v: u32) -> [u8; 4] {
    v.to_le_bytes()
}

/// A 32- or 64-bit PE image importing `Func` and ordinal 7 from `kernel32.dll`.
fn import_image() -> Vec<u8> {
    let wide = usize::BITS == 64;
    let w = if wide { 8 } else { 4 };
    let mut img = vec![0u8; 0x400];
    img[0..2].copy_from_slice(&0x5A4D_u16.to_le_bytes());
    img[0x3C..0x40].copy_from_slice(&le32(0x80));
    img[0x80..0x84].copy_from_slice(&le32(0x4550));
    let opt = 0x80 + 24;
    let (magic, count_off, dir_off): (u16, usize, usize) = if wide { (0x20B, 108, 112) } else { (0x10B, 92, 96) };
    img[opt..opt + 2].copy_from_slice(&magic.to_le_bytes());
    img[opt + count_off..opt + count_off + 4].copy_from_slice(&le32(16));
    let entry = opt + dir_off + 8;
    img[entry..entry + 4].copy_from_slice(&le32(0x200));
    img[entry + 4..entry + 8].copy_from_slice(&le32(40));
    // descriptor: lookup table at 0x280, name at 0x300, address table at 0x2C0
    img[0x200..0x204].copy_from_slice(&le32(0x280));
    img[0x20C..0x210].copy_from_slice(&le32(0x300));
    img[0x210..0x214].copy_from_slice(&le32(0x2C0));
    img[0x300..0x30C].copy_from_slice(b"KERNEL32.dll");
    // thunk 0: by name (hint-name entry at 0x320), thunk 1: ordinal 7
    img[0x280..0x284].copy_from_slice(&le32(0x320));
    if wide {
        img[0x288..0x290].copy_from_slice(&(0x8000_0000_0000_0007u64).to_le_bytes());
    } else {
        img[0x284..0x288].copy_from_slice(&le32(0x8000_0007));
    }
    img[0x322..0x326].copy_from_slice(b"Func");
    let _ = w;
    img
}

#[test]
fn import_walk_finds_named_and_ordinal_imports() {
    let img = import_image();
    let w: u64 = if usize::BITS == 64 { 8 } else { 4 };
    assert_eq!(import_directory(&img), Some((0x200, 40)));
    let named = [HookSymbol { name: "Func", patch: 0x1234, original: 0 }];
    assert_eq!(hook_module(&img, "kernel32.dll", &named), vec![IatPatch { iat_offset: 0x2C0, symbol: 0 }]);
    assert!(hook_module(&img, "user32.dll", &named).is_empty());
    let unpatched = [HookSymbol { name: "Func", patch: 0, original: 0 }];
    assert!(hook_module(&img, "kernel32.dll", &unpatched).is_empty());
    let ordinals = [OrdinalHookSymbol { ordinal: 7, patch: 0x99, original: 0 }];
    assert_eq!(
        hook_module_ordinals(&img, "kernel32.dll", &ordinals),
        vec![IatPatch { iat_offset: 0x2C0 + w, symbol: 0 }]
    );
    assert!(hook_module(&[0u8; 16], "kernel32.dll", &named).is_empty());
}

#[test]
fn api_sets_count_as_kernel32() {
    assert!(dll_matches(b"API-MS-WIN-CORE-FILE-L1-1-0.dll", b"kernel32.dll"));
    assert!(dll_matches(b"ext-ms-win-foo.dll", b"KERNEL32.DLL"));
    assert!(!dll_matches(b"api-ms-win-core-file.dll", b"user32.dll"));
    assert_eq!(modules_to_hook(10, 20, 30, &[0, 20, 10, 30, 40, 50]), vec![10, 40, 50]);
    assert_eq!(modules_to_hook(20, 20, 30, &[40]), vec![40]);
}

#[test]
fn registry_keys_are_found_after_registration() {
    let mut reg = VirtualRegistry::new();
    push_key(&mut reg, HKEY_LOCAL_MACHINE, "SYSTEM/SEGA/SystemProperty/", vec![RegValue::string("OSVersion", "0_0_0")]);
    assert_eq!(canonical_path(b"\\\\a/b\\\\"), b"a\\b".to_vec());
    assert_eq!(resolve_key_id(&reg, HKEY_LOCAL_MACHINE, "system\\sega\\systemproperty"), Some(0));
    assert!(matches!(open_key_request(&reg, HKEY_LOCAL_MACHINE, "SYSTEM\\SEGA\\SystemProperty", true), OpenDecision::Virtual(0)));
    assert!(matches!(open_key_request(&reg, HKEY_LOCAL_MACHINE, "SOFTWARE", true), OpenDecision::PassThrough));
    assert!(matches!(open_key_request(&reg, HKEY_LOCAL_MACHINE, "SOFTWARE", false), OpenDecision::InvalidParameter));
    push_key(&mut reg, HKEY_LOCAL_MACHINE, "SYSTEM\\SEGA\\SystemProperty\\static", vec![RegValue::dword("CpuTempError", 100)]);
    reg.bind_handle(0x55, 0);
    assert_eq!(resolve_key_id(&reg, 0x55, "static"), Some(1));
    let req = ValueRequest { has_type: true, data_capacity: Some(64), has_data: true };
    let reply = query_value(&reg, 0x55, "osversion", &req).unwrap();
    assert_eq!(reply.status, 0);
    assert_eq!(reply.data_type, Some(REG_SZ));
    assert_eq!(reply.data, Some(vec![b'0', 0, b'_', 0, b'0', 0, b'_', 0, b'0', 0, 0, 0]));
    assert_eq!(reply.data_len, Some(12));
    let small = ValueRequest { has_type: false, data_capacity: Some(4), has_data: true };
    assert_eq!(query_value(&reg, 0x55, "OSVersion", &small).unwrap().status, ERROR_MORE_DATA);
    assert_eq!(query_value(&reg, 0x55, "Missing", &req).unwrap().status, ERROR_FILE_NOT_FOUND);
    assert!(query_value(&reg, 0x56, "OSVersion", &req).is_none());
    let info = query_info(&reg, 0x55).unwrap();
    assert_eq!((info.values, info.max_value_name_len, info.max_value_len), (1, 9, 12));
    match enum_value(&reg, 0x55, 0, Some(32), true, &req).unwrap() {
        EnumReply::Value { name_len, name, reply } => {
            assert_eq!(name_len, Some(9));
            assert_eq!(name.unwrap().len(), 10);
            assert_eq!(reply.status, 0);
        }
        _ => panic!("value 0 exists"),
    }
    assert!(matches!(enum_value(&reg, 0x55, 1, None, false, &req).unwrap(), EnumReply::NoMoreItems));
    assert!(matches!(enum_value(&reg, 0x55, 0, Some(9), true, &req).unwrap(), EnumReply::NameTooSmall { name_len: 9 }));
    push_key(&mut reg, HKEY_LOCAL_MACHINE, "system\\sega\\systemproperty\\STATIC", vec![RegValue::dword("X", 7)]);
    assert_eq!(reg.keys.len(), 2);
    assert_eq!(reg.keys[1].values[0].ty, REG_DWORD);
    assert_eq!(reg.keys[1].values[0].bytes, vec![7, 0, 0, 0]);
    reg.close_key(0x55);
    assert!(query_value(&reg, 0x55, "OSVersion", &req).is_none());
}

fn decline(_module: usize, _name: &str) -> Option<usize> {
    None
}

fn answer(_module: usize, name: &str) -> Option<usize> {
    if name == "amDllVideoOpen" { Some(0xAA) } else { None }
}

fn load(name: &str) -> Option<usize> {
    if name.ends_with("amvideo.dll") { Some(0x10) } else { None }
}

#[test]
fn proc_addr_lookups_follow_registration_order() {
    let mut reg: ProcAddrRegistry<fn(usize, &str) -> Option<usize>, fn(&str) -> Option<usize>> = ProcAddrRegistry::new();
    push_table(&mut reg, "kernel32.dll", &[HookSymbol { name: "ReadFile", patch: 0x111, original: 0x222 }]);
    push_table(&mut reg, "setupapi.dll", &[HookSymbol { name: "ReadFile", patch: 0x333, original: 0 }]);
    let found = lookup_detour(&reg, &[0x7000, 0x8000], 0x8000, b"ReadFile").unwrap();
    assert_eq!(found.patch, 0x333);
    assert_eq!(lookup_detour(&reg, &[0x7000, 0x8000], 0x7000, b"ReadFile").unwrap().patch, 0x111);
    assert!(lookup_detour(&reg, &[0x7000, 0x8000], 0x9000, b"ReadFile").is_none());
    push_get_proc_override(&mut reg, "amvideo.dll", decline);
    push_get_proc_override(&mut reg, "amvideo.dll", answer);
    assert_eq!(lookup_override(&reg, 1, "amDllVideoOpen"), Some(0xAA));
    assert_eq!(lookup_override(&reg, 1, "Other"), None);
    push_load_override_a(&mut reg, load);
    assert_eq!(lookup_load_override_a(&reg, "C:\\x\\amvideo.dll"), Some(0x10));
    assert!(gpa_passes_through(0, 0x50000, false));
    assert!(gpa_passes_through(1, 0x10, false));
    assert!(!gpa_passes_through(1, 0x50000, false));
    assert!(gpa_passes_through(1, 0x50000, true));
}

fn to_vfs(path: &str) -> Option<String> {
    path.strip_prefix("E:\\").map(|rest| format!("D:\\data\\{rest}"))
}

#[test]
fn path_rewriters_are_consulted_in_order() {
    let mut hooks: PathHooks<fn(&str) -> Option<String>> = PathHooks::new();
    assert_eq!(hooks.transform("E:\\a"), None);
    push_path_hook(&mut hooks, to_vfs);
    assert_eq!(hooks.transform("E:\\a"), Some(String::from("D:\\data\\a")));
    assert_eq!(hooks.transform("C:\\a"), None);
    assert_eq!(kernel_hook_names().len(), 33);
    assert_eq!(kernel_hook_names()[0], "CreateFileA");
    assert_eq!(shlwapi_hook_names(), vec!["PathFileExistsA", "PathFileExistsW"]);
}

#[test]
fn phantom_hid_is_enumerated_first() {
    let mut hid = PhantomHid::new();
    assert_eq!(hid.on_get_class_devs(Some(hid_guid()), Some(0x42)), 0x42);
    assert!(hid.add_phantom_hid("$io4\\vid_0ca3"));
    assert!(hid.add_phantom_hid("$io4\\vid_0ca3"));
    assert!(!hid.add_phantom_hid("$other"));
    assert_eq!(hid.on_get_class_devs(Some(hid_guid()), Some(0x42)), 0x42);
    assert_eq!(hid.on_get_class_devs(Some(hid_guid()), Some(usize::MAX)), FAKE_DEVICE_INFO_SET);
    assert_eq!(hid.on_get_class_devs(None, None), 0);
    assert!(hid.enum_device_interfaces(0x42, Some(hid_guid()), 0, true, true) == InterfaceStep::FillPhantom);
    assert!(hid.enum_device_interfaces(0x42, Some(hid_guid()), 2, true, true) == InterfaceStep::Original(1));
    assert!(hid.enum_device_interfaces(FAKE_DEVICE_INFO_SET, Some(hid_guid()), 1, true, true) == InterfaceStep::NoMoreItems);
    assert!(hid.enum_device_interfaces(0x43, Some(hid_guid()), 0, true, true) == InterfaceStep::Original(0));
    match hid.interface_detail_w(FAKE_DEVICE_INFO_SET, None, Some(64)) {
        DetailStep::Done { required, bytes } => {
            assert_eq!(required, 4 + 14 * 2);
            assert_eq!(bytes[4..6], [b'$', 0]);
        }
        _ => panic!("detail must be served"),
    }
    assert!(matches!(hid.interface_detail_a(0x43, Some(FAKE_DEVICE_INFO_SET), Some(4)), DetailStep::Fail { error: 122, required: Some(18) }));
    assert!(matches!(hid.interface_detail_w(0x43, None, Some(64)), DetailStep::PassThrough));
    assert!(!hid.destroy_device_info_list(FAKE_DEVICE_INFO_SET));
    assert!(hid.destroy_device_info_list(0x42));
    assert!(hid.enum_device_interfaces(0x42, Some(hid_guid()), 0, true, true) == InterfaceStep::Original(0));
}

#[test]
fn hook_chain_walks_handlers_then_falls_through() {
    let mut chain = HandlerChain::new();
    assert!(chain.push_handler());
    assert_eq!(chain.next_step(0), (Some(0), 1));
    assert_eq!(chain.next_step(1), (None, 1));
    assert_eq!(next_after(1, -1), usize::MAX);
    assert_eq!(next_after(1, 0), 1);
    for _ in 1..32 {
        assert!(chain.push_handler());
    }
    assert!(!chain.push_handler());
    assert_eq!(fallthrough_call(IrpOp::Open, true), RealCall::CreateFileA);
    assert_eq!(fallthrough_call(IrpOp::Open, false), RealCall::CreateFileW);
    assert_eq!(fallthrough_call(IrpOp::Seek, false), RealCall::SetFilePointerEx);
    assert_eq!(fallthrough_hr(false, 5) as u32, 0x8007_0005);
    assert_eq!(fallthrough_hr(true, 5), 0);
}

#[test]
fn transfers_complete_or_report_pending() {
    assert!(!transfer_args_valid(0, true, true, false));
    assert!(!transfer_args_valid(5, true, false, false));
    assert!(transfer_args_valid(5, true, false, true));
    let done = complete_overlapped(true, true, 9);
    assert_eq!((done.ret, done.last_error, done.returned, done.overlapped), (1, Some(0), Some(9), Some(9)));
    let pending = complete_overlapped(false, true, 9);
    assert_eq!((pending.ret, pending.last_error), (0, Some(ERROR_IO_PENDING)));
    let read = read_file_finish(0x8000_000Au32 as i32, true, true, 5);
    assert_eq!((read.ret, read.returned, read.overlapped), (0, Some(0), Some(0)));
    let failed = read_file_finish(0x8007_0057u32 as i32, true, false, 5);
    assert_eq!((failed.ret, failed.last_error), (0, Some(87)));
}

#[test]
fn seek_positions_split_and_compose() {
    assert_eq!(seek_distance(-1, None), -1);
    assert_eq!(seek_distance(-1, Some(0)), 0xFFFF_FFFF);
    assert_eq!(seek_distance(5, Some(1)), 0x1_0000_0005);
    assert_eq!(split_position(0x1_0000_0005), (5, 1));
    assert_eq!(split_position(-2), (0xFFFF_FFFE, -1));
    let (low, high) = split_position(-0x1_2345_6789);
    assert_eq!(seek_distance(low as i32, Some(high)), -0x1_2345_6789);
}

#[test]
fn x86_lengths_cover_common_prologues() {
    assert_eq!(instruction_len(&[0x55], 0), Some(1));
    assert_eq!(instruction_len(&[0x8B, 0xEC], 0), Some(2));
    assert_eq!(instruction_len(&[0x83, 0xEC, 0x10], 0), Some(1));
    assert_eq!(instruction_len(&[0x81, 0xEC, 0x10, 0, 0, 0], 0), Some(1));
    assert_eq!(instruction_len(&[0x6A, 0x01], 0), Some(2));
    assert_eq!(instruction_len(&[0x8B, 0x04, 0x25, 0, 0, 0, 0], 0), Some(7));
    assert_eq!(instruction_len(&[0xC7, 0x45, 0xFC, 0, 0, 0, 0], 0), Some(7));
    assert_eq!(instruction_len(&[0xE8, 0, 0, 0, 0], 0), Some(5));
    assert_eq!(instruction_len(&[0x8B, 0x44, 0x24, 0x04], 0), Some(4));
    assert_eq!(instruction_len(&[0x66, 0x0F, 0x84, 0, 0, 0, 0], 0), Some(7));
    assert_eq!(instruction_len(&[0x0F, 0x05], 0), None);
    assert_eq!(instruction_span(&[0x55, 0x8B, 0xEC, 0x6A, 0x01, 0x90], 5), Some(5));
    assert_eq!(instruction_span(&[0xE9, 0, 0, 0, 0, 0xE9, 0, 0, 0, 0, 0xE9, 0, 0, 0, 0, 0xE9, 0, 0, 0, 0], 16), None);
    assert_eq!(instruction_span(&[0x0F, 0x05], 1), None);
}

fn run_walk(container: usize, words: &[(usize, usize)], bytes: &[(usize, u8)]) -> (Vec<usize>, bool) {
    let mut walk = TreeWalk::new(container);
    let mut request = walk.request();
    let mut visited = Vec::new();
    loop {
        request = match request {
            WalkRequest::Word(addr) => walk.reply_word(words.iter().find(|(a, _)| *a == addr).map(|(_, v)| *v)),
            WalkRequest::Byte(addr) => walk.reply_byte(bytes.iter().find(|(a, _)| *a == addr).map(|(_, v)| *v)),
            WalkRequest::Visit(node) => {
                visited.push(node);
                walk.reply_visit(true)
            }
            WalkRequest::Done(ok) => return (visited, ok),
        };
    }
}

#[test]
fn music_map_is_walked_in_key_order() {
    let (h, a, b, c) = (0x1000usize, 0x2000usize, 0x3000usize, 0x4000usize);
    let words = [
        (0x500, h),
        (h, a),
        (h + 4, b),
        (h + 8, c),
        (a, h),
        (a + 4, b),
        (a + 8, h),
        (b, a),
        (b + 4, h),
        (b + 8, c),
        (c, h),
        (c + 4, b),
        (c + 8, h),
    ];
    let bytes = [(h + 0xd, 1u8), (a + 0xd, 0), (b + 0xd, 0), (c + 0xd, 0)];
    assert_eq!(run_walk(0x500, &words, &bytes), (vec![a, b, c], true));
    let empty_words = [(0x500, h), (h, h)];
    assert_eq!(run_walk(0x500, &empty_words, &bytes), (vec![], true));
    let broken = [(0x500, h), (h, a), (a, h), (a + 4, b)];
    assert_eq!(run_walk(0x500, &broken, &bytes), (vec![a], false));
}

#[test]
fn registered_keys_stay_distinct_by_root_and_folded_path() {
    let mut reg = VirtualRegistry::new();
    push_key(&mut reg, HKEY_LOCAL_MACHINE, "SOFTWARE/Demo", vec![RegValue::dword("A", 1)]);
    push_key(&mut reg, HKEY_LOCAL_MACHINE, "\\software\\DEMO\\", vec![RegValue::dword("B", 2)]);
    push_key(&mut reg, 0x8000_0001, "software\\demo", vec![RegValue::dword("C", 3)]);
    assert_eq!(reg.keys.len(), 2);
    assert_eq!(reg.keys[0].path, b"SOFTWARE\\Demo".to_vec());
    assert_eq!(reg.keys[0].values[0].bytes, vec![2, 0, 0, 0]);
    assert_eq!(reg.keys[1].root, 0x8000_0001);
    for i in 0..reg.keys.len() {
        for j in (i + 1)..reg.keys.len() {
            let same_place = reg.keys[i].root == reg.keys[j].root
                && reg.keys[i].path.eq_ignore_ascii_case(&reg.keys[j].path);
            assert!(!same_place);
        }
    }
}
