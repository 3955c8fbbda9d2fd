use ghost_script::field::{Fp, PALLAS_MODULUS_BYTES};
use ghost_script::field_script::{
    fused_round_constant, generate_canonical_check, generate_dense_mds, generate_full_round_opt,
    generate_partial_round_opt, generate_poseidon_script_opt, generate_sparse_mds,
    generate_witness_full_round, generate_witness_mds, generate_witness_partial_round,
    generate_witness_poseidon_logic, generate_witness_sparse_mds, FusedPoseidonConstants,
    OptimizedScriptBuilder,
};
use ghost_script::poseidon::{
    apply_full_round, apply_fused_round, apply_round, get_mds_fp, mds_multiply,
    mds_multiply_sparse, poseidon_permute, PoseidonHash,
};

// Unsigned numbers of any size, least significant limb first, without
// trailing zero limbs.
#[derive(Clone, Debug, PartialEq, Eq)]
struct Num(Vec<u32>);

impl Num {
    fn from_le_bytes(bytes: &[u8]) -> Num {
        assert!(bytes.last().map_or(true, |b| *b < 0x80), "negative push");
        let mut limbs = vec![0u32; (bytes.len() + 3) / 4];
        for (i, b) in bytes.iter().enumerate() {
            limbs[i / 4] |= (*b as u32) << (8 * (i % 4));
        }
        Num(limbs).trimmed()
    }

    fn small(n: u32) -> Num {
        Num(vec![n]).trimmed()
    }

    fn trimmed(mut self) -> Num {
        while self.0.last() == Some(&0) {
            self.0.pop();
        }
        self
    }

    fn to_usize(&self) -> usize {
        assert!(self.0.len() <= 1);
        self.0.first().copied().unwrap_or(0) as usize
    }

    fn to_repr(&self) -> [u8; 32] {
        assert!(self.0.len() <= 8);
        let mut out = [0u8; 32];
        for (i, limb) in self.0.iter().enumerate() {
            out[4 * i..4 * i + 4].copy_from_slice(&limb.to_le_bytes());
        }
        out
    }

    fn add(&self, other: &Num) -> Num {
        let mut out = Vec::new();
        let mut carry = 0u64;
        for i in 0..self.0.len().max(other.0.len()) {
            let a = *self.0.get(i).unwrap_or(&0) as u64;
            let b = *other.0.get(i).unwrap_or(&0) as u64;
            let sum = a + b + carry;
            out.push(sum as u32);
            carry = sum >> 32;
        }
        out.push(carry as u32);
        Num(out).trimmed()
    }

    fn mul(&self, other: &Num) -> Num {
        let mut out = vec![0u32; self.0.len() + other.0.len() + 1];
        for (i, a) in self.0.iter().enumerate() {
            let mut carry = 0u64;
            for (j, b) in other.0.iter().enumerate() {
                let cur = out[i + j] as u64 + (*a as u64) * (*b as u64) + carry;
                out[i + j] = cur as u32;
                carry = cur >> 32;
            }
            let mut k = i + other.0.len();
            while carry > 0 {
                let cur = out[k] as u64 + carry;
                out[k] = cur as u32;
                carry = cur >> 32;
                k += 1;
            }
        }
        Num(out).trimmed()
    }

    fn less_than(&self, other: &Num) -> bool {
        if self.0.len() != other.0.len() {
            return self.0.len() < other.0.len();
        }
        for i in (0..self.0.len()).rev() {
            if self.0[i] != other.0[i] {
                return self.0[i] < other.0[i];
            }
        }
        false
    }

    fn sub(&self, other: &Num) -> Num {
        let mut out = Vec::new();
        let mut borrow = 0i64;
        for i in 0..self.0.len() {
            let mut cur = self.0[i] as i64 - *other.0.get(i).unwrap_or(&0) as i64 - borrow;
            borrow = 0;
            if cur < 0 {
                cur += 1 << 32;
                borrow = 1;
            }
            out.push(cur as u32);
        }
        assert_eq!(borrow, 0);
        Num(out).trimmed()
    }

    fn bit(&self, i: usize) -> bool {
        self.0.get(i / 32).map_or(false, |l| (l >> (i % 32)) & 1 == 1)
    }

    fn rem(&self, modulus: &Num) -> Num {
        assert!(!modulus.0.is_empty(), "division by zero");
        let mut r = Num(vec![]);
        for i in (0..32 * self.0.len()).rev() {
            r = r.add(&r);
            if self.bit(i) {
                r = r.add(&Num::small(1));
            }
            if !r.less_than(modulus) {
                r = r.sub(modulus);
            }
        }
        r
    }
}

// Runs a script on the two stacks; `Err` when the machine aborts.
fn run(script: &[u8], stack: &mut Vec<Num>, alt: &mut Vec<Num>) -> Result<(), String> {
    let mut pc = 0;
    while pc < script.len() {
        let op = script[pc];
        pc += 1;
        match op {
            0x00 => stack.push(Num(vec![])),
            1..=75 => {
                let n = op as usize;
                stack.push(Num::from_le_bytes(&script[pc..pc + n]));
                pc += n;
            }
            0x51..=0x60 => stack.push(Num::small((op - 0x50) as u32)),
            0x69 => {
                let top = stack.pop().ok_or("empty")?;
                if top.0.is_empty() {
                    return Err("verify failed".to_string());
                }
            }
            0x6b => alt.push(stack.pop().ok_or("empty")?),
            0x6c => stack.push(alt.pop().ok_or("empty alt")?),
            0x6d => {
                stack.pop().ok_or("empty")?;
                stack.pop().ok_or("empty")?;
            }
            0x75 => {
                stack.pop().ok_or("empty")?;
            }
            0x76 => {
                let top = stack.last().ok_or("empty")?.clone();
                stack.push(top);
            }
            0x79 => {
                let n = stack.pop().ok_or("empty")?.to_usize();
                if n >= stack.len() {
                    return Err("pick out of range".to_string());
                }
                let item = stack[stack.len() - 1 - n].clone();
                stack.push(item);
            }
            0x7a => {
                let n = stack.pop().ok_or("empty")?.to_usize();
                if n >= stack.len() {
                    return Err("roll out of range".to_string());
                }
                let item = stack.remove(stack.len() - 1 - n);
                stack.push(item);
            }
            0x7c => {
                let b = stack.pop().ok_or("empty")?;
                let a = stack.pop().ok_or("empty")?;
                stack.push(b);
                stack.push(a);
            }
            0x93 => {
                let b = stack.pop().ok_or("empty")?;
                let a = stack.pop().ok_or("empty")?;
                stack.push(a.add(&b));
            }
            0x95 => {
                let b = stack.pop().ok_or("empty")?;
                let a = stack.pop().ok_or("empty")?;
                stack.push(a.mul(&b));
            }
            0x97 => {
                let b = stack.pop().ok_or("empty")?;
                let a = stack.pop().ok_or("empty")?;
                if b.0.is_empty() {
                    return Err("division by zero".to_string());
                }
                stack.push(a.rem(&b));
            }
            0x9f => {
                let b = stack.pop().ok_or("empty")?;
                let a = stack.pop().ok_or("empty")?;
                stack.push(if a.less_than(&b) { Num::small(1) } else { Num(vec![]) });
            }
            other => return Err(format!("opcode {:#x} is outside the arithmetic set", other)),
        }
    }
    Ok(())
}

fn num(fp: &Fp) -> Num {
    Num::from_le_bytes(&fp.to_repr())
}

fn fp(n: &Num) -> Fp {
    Fp::from_repr(&n.to_repr()).unwrap()
}

fn sample_state(seed: u64) -> [Fp; 3] {
    let a = Fp::from_u64(seed).pow5();
    [a, a.mul(&Fp::from_u64(seed + 1)).pow5(), a.add(&Fp::from_u64(77)).pow5()]
}

fn embedded_layout(state: &[Fp; 3]) -> Vec<Num> {
    let mut stack = vec![Num::small(9999), Num::from_le_bytes(&PALLAS_MODULUS_BYTES)];
    let m = get_mds_fp();
    for row in m.iter() {
        for e in row.iter() {
            stack.push(num(e));
        }
    }
    for s in state.iter() {
        stack.push(num(s));
    }
    stack
}

#[test]
fn field_primitives_run_as_stated() {
    let p = Num::from_le_bytes(&PALLAS_MODULUS_BYTES);
    let x = sample_state(3)[1];
    let y = sample_state(4)[2];
    let mut b = OptimizedScriptBuilder::new();
    b.field_add_pick_p(1);
    let mut stack = vec![p.clone(), num(&x), num(&y)];
    run(&b.build(), &mut stack, &mut vec![]).unwrap();
    assert_eq!(stack, vec![p.clone(), num(&x.add(&y))]);
    let mut b = OptimizedScriptBuilder::new();
    b.field_mul_pick_p(2);
    let mut stack = vec![p.clone(), Num::small(5), num(&x), num(&y)];
    run(&b.build(), &mut stack, &mut vec![]).unwrap();
    assert_eq!(stack, vec![p.clone(), Num::small(5), num(&x.mul(&y))]);
    let mut b = OptimizedScriptBuilder::new();
    b.sbox_p_at(3);
    let script = b.build();
    assert_eq!(
        script,
        vec![
            0x76, 0x76, 0x95, 0x54, 0x79, 0x97, 0x76, 0x76, 0x95, 0x55, 0x79, 0x97, 0x52, 0x7a,
            0x95, 0x54, 0x79, 0x97, 0x7c, 0x75
        ]
    );
    let mut stack = vec![p.clone(), Num::small(1), Num::small(2), num(&x)];
    run(&script, &mut stack, &mut vec![]).unwrap();
    assert_eq!(stack, vec![p, Num::small(1), Num::small(2), num(&x.pow5())]);
}

#[test]
fn embedded_rounds_run_as_the_rounds_of_the_fused_schedule() {
    let m = get_mds_fp();
    for (round, seed) in [(0usize, 11u64), (3, 12), (60, 13), (63, 14)] {
        let state = sample_state(seed);
        let mut stack = embedded_layout(&state);
        let mut alt = vec![Num::small(5)];
        run(&generate_full_round_opt(round), &mut stack, &mut alt).unwrap();
        let expected = apply_round(&m, round, &state);
        assert_eq!(stack, embedded_layout(&expected));
        assert_eq!(alt, vec![Num::small(5)]);
    }
    let constants = FusedPoseidonConstants::compute();
    for (round, seed) in [(4usize, 21u64), (30, 22), (59, 23)] {
        let state = sample_state(seed);
        let script = generate_partial_round_opt(round);
        assert_eq!(script.len(), 131);
        // One constant is written in, and it is the round's fused one.
        let fused = constants.partial_round_c0[round - 4];
        assert_eq!(fused_round_constant(round), fused);
        assert_eq!(&script[2..35], &[vec![32u8], fused.to_repr().to_vec()].concat()[..]);
        assert_eq!(script.iter().filter(|b| **b == 32).count() >= 1, true);
        let mut stack = embedded_layout(&state);
        run(&script, &mut stack, &mut vec![]).unwrap();
        let expected = apply_fused_round(&m, &fused, &state);
        assert_eq!(stack, embedded_layout(&expected));
        // The other two elements change only through the sparse mix.
        assert_eq!(expected[1], m[1][0].mul(&expected_power(&state, &fused)).add(&state[1]));
        assert_eq!(expected[2], m[2][0].mul(&expected_power(&state, &fused)).add(&state[2]));
    }
}

fn expected_power(state: &[Fp; 3], fused: &Fp) -> Fp {
    state[0].add(fused).pow5()
}

#[test]
fn embedded_permutation_runs_as_the_compiled_permutation() {
    let state = sample_state(5);
    let mut stack = vec![Num::small(1234), num(&state[0]), num(&state[1]), num(&state[2])];
    let script = generate_poseidon_script_opt();
    assert_eq!(script.len(), 9936);
    run(&script, &mut stack, &mut vec![]).unwrap();
    let expected = FusedPoseidonConstants::compute().permute(state);
    assert_eq!(stack.len(), 14);
    assert_eq!(stack[0], Num::small(1234));
    assert_eq!(stack[1], Num::from_le_bytes(&PALLAS_MODULUS_BYTES));
    assert_eq!(fp(&stack[11]), expected[0]);
    assert_eq!(fp(&stack[12]), expected[1]);
    assert_eq!(fp(&stack[13]), expected[2]);
    assert_eq!(PoseidonHash::hash(state[0], state[1]), {
        let zero = Fp::zero();
        FusedPoseidonConstants::compute().permute([state[0], state[1], zero])[0]
    });
}

#[test]
fn witness_logic_runs_the_fused_schedule_over_the_blob() {
    let constants = FusedPoseidonConstants::compute();
    let blob = constants.to_blob();
    let state = sample_state(6);
    let mut stack = vec![Num::small(4321)];
    for chunk in blob.chunks(32) {
        stack.push(Num::from_le_bytes(chunk));
    }
    assert_eq!(stack.len(), 91);
    for s in state.iter() {
        stack.push(num(s));
    }
    let before = stack.clone();
    run(&generate_witness_poseidon_logic(), &mut stack, &mut vec![]).unwrap();
    let expected = constants.permute(state);
    assert_eq!(&stack[..91], &before[..91]);
    assert_eq!(fp(&stack[91]), expected[0]);
    assert_eq!(fp(&stack[92]), expected[1]);
    assert_eq!(fp(&stack[93]), expected[2]);
}

#[test]
fn fused_schedule_differs_from_the_textbook_one_on_the_standard_constants() {
    let constants = FusedPoseidonConstants::compute();
    let state = sample_state(7);
    assert_ne!(constants.permute(state), poseidon_permute(state));
}

#[test]
fn canonical_check_lets_only_values_below_the_modulus_pass() {
    let script = generate_canonical_check();
    assert_eq!(script.len(), 36);
    let p = Num::from_le_bytes(&PALLAS_MODULUS_BYTES);
    let below = p.sub(&Num::small(1));
    let mut stack = vec![below.clone()];
    assert!(run(&script, &mut stack, &mut vec![]).is_ok());
    assert_eq!(stack, vec![below]);
    let mut stack = vec![p.clone()];
    assert!(run(&script, &mut stack, &mut vec![]).is_err());
    let mut stack = vec![p.add(&Num::small(1))];
    assert!(run(&script, &mut stack, &mut vec![]).is_err());
    let mut stack = vec![Num(vec![])];
    assert!(run(&script, &mut stack, &mut vec![]).is_ok());
}

fn witness_layout(state: &[Fp; 3]) -> Vec<Num> {
    let mut stack = vec![Num::small(4321)];
    for chunk in FusedPoseidonConstants::compute().to_blob().chunks(32) {
        stack.push(Num::from_le_bytes(chunk));
    }
    for s in state.iter() {
        stack.push(num(s));
    }
    stack
}

#[test]
fn mixes_run_as_the_matrix_products() {
    let m = get_mds_fp();
    let state = sample_state(31);
    let mut b = OptimizedScriptBuilder::new();
    generate_dense_mds(&mut b);
    let dense = b.build();
    assert_eq!(dense.len(), 104);
    let mut stack = embedded_layout(&state);
    run(&dense, &mut stack, &mut vec![]).unwrap();
    assert_eq!(stack, embedded_layout(&mds_multiply(&m, &state)));
    let mut b = OptimizedScriptBuilder::new();
    generate_sparse_mds(&mut b);
    let sparse = b.build();
    assert_eq!(sparse.len(), 68);
    let mut stack = embedded_layout(&state);
    run(&sparse, &mut stack, &mut vec![]).unwrap();
    assert_eq!(stack, embedded_layout(&mds_multiply_sparse(&m, &state)));
    assert_eq!(mds_multiply_sparse(&m, &state), mds_multiply(&m, &state));
    let mut b = OptimizedScriptBuilder::new();
    generate_witness_mds(&mut b);
    let dense = b.build();
    assert_eq!(dense.len(), 128);
    let mut stack = witness_layout(&state);
    run(&dense, &mut stack, &mut vec![]).unwrap();
    assert_eq!(stack, witness_layout(&mds_multiply(&m, &state)));
    let mut b = OptimizedScriptBuilder::new();
    generate_witness_sparse_mds(&mut b);
    let sparse = b.build();
    assert_eq!(sparse.len(), 82);
    let mut stack = witness_layout(&state);
    run(&sparse, &mut stack, &mut vec![]).unwrap();
    assert_eq!(stack, witness_layout(&mds_multiply_sparse(&m, &state)));
}

#[test]
fn witness_rounds_run_as_the_rounds_of_the_fused_schedule() {
    let constants = FusedPoseidonConstants::compute();
    for (round, slot) in [(0usize, 0usize), (3, 3), (60, 4), (63, 7)] {
        let state = sample_state(40 + round as u64);
        let script = generate_witness_full_round(round);
        assert_eq!(script.len(), 229);
        let mut stack = witness_layout(&state);
        run(&script, &mut stack, &mut vec![]).unwrap();
        let expected =
            apply_full_round(&constants.mds, &constants.full_round_constants[slot], &state);
        assert_eq!(stack, witness_layout(&expected));
    }
    for round in [4usize, 45, 46, 59] {
        let state = sample_state(50 + round as u64);
        let script = generate_witness_partial_round(round);
        assert_eq!(script.len(), if round < 46 { 119 } else { 118 });
        let mut stack = witness_layout(&state);
        run(&script, &mut stack, &mut vec![]).unwrap();
        let expected =
            apply_fused_round(&constants.mds, &constants.partial_round_c0[round - 4], &state);
        assert_eq!(stack, witness_layout(&expected));
    }
}

#[test]
fn builder_writes_one_byte_per_primitive() {
    let mut b = OptimizedScriptBuilder::new();
    b.dup().drop().swap().over().to_alt().from_alt();
    b.add().sub().mul().modulo().equal().equal_verify().less_than().verify();
    b.op(0xac);
    assert_eq!(b.size(), 15);
    b.pick(0).pick(16).pick(17).roll(200);
    b.push_data(&[]).push_data(&[9, 9]);
    assert_eq!(
        b.build(),
        vec![
            0x76, 0x75, 0x7c, 0x78, 0x6b, 0x6c, 0x93, 0x94, 0x95, 0x97, 0x87, 0x88, 0x9f, 0x69,
            0xac, 0x00, 0x79, 0x60, 0x79, 0x01, 17, 0x79, 0x02, 200, 0x00, 0x7a, 0x00, 0x02, 9, 9
        ]
    );
    let mut b = OptimizedScriptBuilder::new();
    b.init_constants();
    let init = b.build();
    assert_eq!(init.len(), 330);
    assert_eq!(init[0], 32);
    assert_eq!(&init[1..33], &PALLAS_MODULUS_BYTES);
    assert_eq!(&init[33..35], &[32, 3]);
    assert_eq!(&init[66..68], &[32, 1]);
    assert_eq!(&init[198..200], &[32, 0]);
}

// The opcodes of a script in order, and the sizes of its data pushes.
fn instructions(script: &[u8]) -> (Vec<u8>, Vec<usize>) {
    let mut ops = Vec::new();
    let mut pushes = Vec::new();
    let mut pc = 0;
    while pc < script.len() {
        let op = script[pc];
        pc += 1;
        if (1..=75).contains(&op) {
            pushes.push(op as usize);
            pc += op as usize;
        } else {
            ops.push(op);
        }
    }
    (ops, pushes)
}

fn multiplications(script: &[u8]) -> usize {
    instructions(script).0.iter().filter(|op| **op == 0x95).count()
}

#[test]
fn rounds_multiply_and_push_as_often_as_they_should() {
    let mut b = OptimizedScriptBuilder::new();
    generate_dense_mds(&mut b);
    assert_eq!(multiplications(&b.build()), 9);
    let mut b = OptimizedScriptBuilder::new();
    generate_sparse_mds(&mut b);
    assert_eq!(multiplications(&b.build()), 5);
    let mut b = OptimizedScriptBuilder::new();
    b.sbox_p_at(12);
    assert_eq!(multiplications(&b.build()), 3);
    for round in 4..60 {
        let script = generate_partial_round_opt(round);
        assert_eq!(multiplications(&script), 3 + 5);
        assert_eq!(instructions(&script).1, vec![32]);
        let script = generate_witness_partial_round(round);
        assert_eq!(multiplications(&script), 3 + 5);
        assert!(instructions(&script).1.iter().all(|n| *n == 1));
    }
    for round in [0usize, 1, 2, 3, 60, 61, 62, 63] {
        let script = generate_full_round_opt(round);
        assert_eq!(multiplications(&script), 9 + 9);
        assert_eq!(instructions(&script).1, vec![32, 32, 32]);
        assert_eq!(multiplications(&generate_witness_full_round(round)), 9 + 9);
    }
    let whole = generate_poseidon_script_opt();
    assert_eq!(multiplications(&whole), 8 * 18 + 56 * 8);
    assert_eq!(instructions(&whole).1.len(), 10 + 8 * 3 + 56);
}
