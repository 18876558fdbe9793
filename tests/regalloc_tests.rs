use rue::{Register, RegisterAllocator, VReg};

#[test]
fn test_register_allocation() {
    let mut allocator = RegisterAllocator::new();

    let vreg1 = VReg(1);
    let vreg2 = VReg(2);

    let reg1 = allocator.allocate(vreg1);
    let reg2 = allocator.allocate(vreg2);

    assert_eq!(allocator.allocate(vreg1), reg1);
    assert_eq!(allocator.allocate(vreg2), reg2);

    assert_ne!(reg1, reg2);
}

#[test]
fn test_round_robin_allocation() {
    let mut allocator = RegisterAllocator::new();

    let mut vregs = Vec::new();
    let mut allocations = Vec::new();

    for i in 0..10 {
        let vreg = VReg(i);
        vregs.push(vreg);
        allocations.push(allocator.allocate(vreg));
    }

    assert_eq!(allocations[0], allocations[5]);
}

#[test]
fn regalloc_pool_order() {
    let mut allocator = RegisterAllocator::new();
    let got: Vec<Register> = (0..6).map(|i| allocator.allocate(VReg(i))).collect();
    assert_eq!(
        got,
        vec![
            Register::Rbx,
            Register::Rcx,
            Register::Rdx,
            Register::Rsi,
            Register::Rdi,
            Register::Rbx
        ]
    );
    assert_eq!(allocator.get_register(VReg(3)), Some(Register::Rsi));
    assert_eq!(allocator.get_register(VReg(42)), None);
    assert_eq!(allocator.get_allocation().len(), 6);
}
