use aether_kernel::memory::UserMemory;
use aether_kernel::stack::{setup_user_stack, AuxvEntry, AT_NULL, AT_PAGESZ};

fn cstr(mem: &UserMemory, addr: u64) -> Vec<u8> {
    let mut out = Vec::new();
    let mut a = addr;
    loop {
        let b = mem.read_byte(a);
        if b == 0 {
            return out;
        }
        out.push(b);
        a += 1;
    }
}

#[test]
fn stack_with_two_arguments() {
    let mut mem = UserMemory::new(0, 0x8000);
    let argv = vec![b"a".to_vec(), b"bc".to_vec()];
    let sp = setup_user_stack(0x8000, &argv, &vec![], &vec![], &mut mem).unwrap();
    assert_eq!(sp % 16, 0);
    assert_eq!(mem.read_u64(sp), 2);
    let p0 = mem.read_u64(sp + 8);
    let p1 = mem.read_u64(sp + 16);
    assert_ne!(p0, 0);
    assert_ne!(p1, 0);
    assert_eq!(mem.read_u64(sp + 24), 0);
    assert_eq!(mem.read_u64(sp + 32), 0);
    assert_eq!(mem.read_u64(sp + 40), AT_NULL);
    assert_eq!(mem.read_u64(sp + 48), 0);
    assert_eq!(cstr(&mem, p0), b"a".to_vec());
    assert_eq!(cstr(&mem, p1), b"bc".to_vec());
    assert_eq!(p1, 0x7ff0);
    assert_eq!(p0, 0x7fe0);
    assert_eq!(sp, 0x7fe0 - 64);
}

#[test]
fn stack_with_environment_and_auxv() {
    let mut mem = UserMemory::new(0x1000, 0x1000);
    let argv = vec![b"prog".to_vec()];
    let envp = vec![b"A=1".to_vec(), b"HOME=/".to_vec()];
    let auxv = vec![AuxvEntry { key: AT_PAGESZ, val: 4096 }];
    let sp = setup_user_stack(0x2000, &argv, &envp, &auxv, &mut mem).unwrap();
    assert_eq!(sp % 16, 0);
    assert_eq!(mem.read_u64(sp), 1);
    let prog = mem.read_u64(sp + 8);
    assert_eq!(mem.read_u64(sp + 16), 0);
    let e0 = mem.read_u64(sp + 24);
    let e1 = mem.read_u64(sp + 32);
    assert_eq!(mem.read_u64(sp + 40), 0);
    assert_eq!(mem.read_u64(sp + 48), AT_PAGESZ);
    assert_eq!(mem.read_u64(sp + 56), 4096);
    assert_eq!(mem.read_u64(sp + 64), AT_NULL);
    assert_eq!(mem.read_u64(sp + 72), 0);
    assert_eq!(cstr(&mem, prog), b"prog".to_vec());
    assert_eq!(cstr(&mem, e0), b"A=1".to_vec());
    assert_eq!(cstr(&mem, e1), b"HOME=/".to_vec());
    assert!(e1 > e0 && e0 > prog);
}

#[test]
fn stack_that_does_not_fit_writes_nothing() {
    let mut mem = UserMemory::new(0x1000, 64);
    let argv = vec![vec![b'x'; 40]];
    assert_eq!(setup_user_stack(0x1040, &argv, &vec![], &vec![], &mut mem), None);
    assert!(mem.bytes.iter().all(|b| *b == 0));
}

#[test]
fn empty_stack_holds_argc_zero() {
    let mut mem = UserMemory::new(0, 0x100);
    let sp = setup_user_stack(0x100, &vec![], &vec![], &vec![], &mut mem).unwrap();
    assert_eq!(sp, 0x100 - 48);
    assert_eq!(mem.read_u64(sp), 0);
}
