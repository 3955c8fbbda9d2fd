use ghost_script::field::{Fp, PALLAS_MODULUS_BYTES};
use ghost_script::field_script::{
    generate_witness_locking_script, generate_witness_unlocking_script, FusedPoseidonConstants,
};
use ghost_script::hashing::hash160;
use ghost_script::proof_generator::generate_mock_proof;
use ghost_script::verifier_contract::{
    ContractOutput, ContractTransactionBuilder, IPAAccumulator, VerifierContract,
};

// A machine whose items are byte strings. Numbers are read and written in
// the shortest little-endian encoding, with the top bit of the last byte as
// the sign; only numbers from zero on occur here.

fn to_limbs(bytes: &[u8]) -> Result<Vec<u32>, String> {
    if bytes.last().map_or(false, |b| *b >= 0x80) {
        return Err("negative number".to_string());
    }
    let mut limbs = vec![0u32; (bytes.len() + 3) / 4];
    for (i, b) in bytes.iter().enumerate() {
        limbs[i / 4] |= (*b as u32) << (8 * (i % 4));
    }
    Ok(trim(limbs))
}

fn trim(mut limbs: Vec<u32>) -> Vec<u32> {
    while limbs.last() == Some(&0) {
        limbs.pop();
    }
    limbs
}

fn to_item(limbs: &[u32]) -> Vec<u8> {
    let mut bytes: Vec<u8> = limbs.iter().flat_map(|l| l.to_le_bytes()).collect();
    while bytes.last() == Some(&0) {
        bytes.pop();
    }
    if bytes.last().map_or(false, |b| *b >= 0x80) {
        bytes.push(0);
    }
    bytes
}

fn add(a: &[u32], b: &[u32]) -> Vec<u32> {
    let mut out = Vec::new();
    let mut carry = 0u64;
    for i in 0..a.len().max(b.len()) {
        let sum = *a.get(i).unwrap_or(&0) as u64 + *b.get(i).unwrap_or(&0) as u64 + carry;
        out.push(sum as u32);
        carry = sum >> 32;
    }
    out.push(carry as u32);
    trim(out)
}

fn mul(a: &[u32], b: &[u32]) -> Vec<u32> {
    let mut out = vec![0u32; a.len() + b.len() + 1];
    for (i, x) in a.iter().enumerate() {
        let mut carry = 0u64;
        for (j, y) in b.iter().enumerate() {
            let cur = out[i + j] as u64 + (*x as u64) * (*y as u64) + carry;
            out[i + j] = cur as u32;
            carry = cur >> 32;
        }
        let mut k = i + b.len();
        while carry > 0 {
            let cur = out[k] as u64 + carry;
            out[k] = cur as u32;
            carry = cur >> 32;
            k += 1;
        }
    }
    trim(out)
}

fn less(a: &[u32], b: &[u32]) -> bool {
    if a.len() != b.len() {
        return a.len() < b.len();
    }
    for i in (0..a.len()).rev() {
        if a[i] != b[i] {
            return a[i] < b[i];
        }
    }
    false
}

fn sub(a: &[u32], b: &[u32]) -> Vec<u32> {
    let mut out = Vec::new();
    let mut borrow = 0i64;
    for i in 0..a.len() {
        let mut cur = a[i] as i64 - *b.get(i).unwrap_or(&0) as i64 - borrow;
        borrow = 0;
        if cur < 0 {
            cur += 1 << 32;
            borrow = 1;
        }
        out.push(cur as u32);
    }
    trim(out)
}

fn rem(a: &[u32], modulus: &[u32]) -> Vec<u32> {
    let mut r: Vec<u32> = Vec::new();
    for i in (0..32 * a.len()).rev() {
        r = add(&r, &r);
        if (a[i / 32] >> (i % 32)) & 1 == 1 {
            r = add(&r, &[1]);
        }
        if !less(&r, modulus) {
            r = sub(&r, modulus);
        }
    }
    r
}

fn sha256(data: &[u8]) -> Vec<u8> {
    <sha2::Sha256 as sha2::Digest>::digest(data).to_vec()
}

fn pop(stack: &mut Vec<Vec<u8>>) -> Result<Vec<u8>, String> {
    stack.pop().ok_or("empty stack".to_string())
}

fn pop_number(stack: &mut Vec<Vec<u8>>) -> Result<Vec<u32>, String> {
    to_limbs(&pop(stack)?)
}

// Runs a script; `Err` names the opcode at which the machine aborts. A
// signature passes the check when it is not empty.
fn run(script: &[u8], stack: &mut Vec<Vec<u8>>, alt: &mut Vec<Vec<u8>>) -> Result<(), String> {
    let mut pc = 0;
    while pc < script.len() {
        let op = script[pc];
        pc += 1;
        match op {
            0x00 => stack.push(vec![]),
            1..=75 | 0x4c | 0x4d => {
                let (header, n) = match op {
                    0x4c => (1, script[pc] as usize),
                    0x4d => (2, script[pc] as usize + 256 * script[pc + 1] as usize),
                    _ => (0, op as usize),
                };
                pc += header;
                stack.push(script[pc..pc + n].to_vec());
                pc += n;
            }
            0x51..=0x60 => stack.push(vec![op - 0x50]),
            0x69 => {
                if pop(stack)?.iter().all(|b| *b == 0) {
                    return Err("VERIFY".to_string());
                }
            }
            0x6b => alt.push(pop(stack)?),
            0x6c => stack.push(alt.pop().ok_or("empty side stack")?),
            0x6d => {
                pop(stack)?;
                pop(stack)?;
            }
            0x74 => {
                let depth = stack.len() as u32;
                stack.push(to_item(&[depth]));
            }
            0x75 => {
                pop(stack)?;
            }
            0x8c => {
                let a = pop_number(stack)?;
                if a.is_empty() {
                    return Err("negative number".to_string());
                }
                stack.push(to_item(&sub(&a, &[1])));
            }
            0x76 => {
                let top = stack.last().ok_or("empty stack")?.clone();
                stack.push(top);
            }
            0x79 | 0x7a => {
                let n = pop_number(stack)?.first().copied().unwrap_or(0) as usize;
                if n >= stack.len() {
                    return Err("depth".to_string());
                }
                let at = stack.len() - 1 - n;
                let item = if op == 0x79 { stack[at].clone() } else { stack.remove(at) };
                stack.push(item);
            }
            0x7c => {
                let b = pop(stack)?;
                let a = pop(stack)?;
                stack.push(b);
                stack.push(a);
            }
            0x7e => {
                let b = pop(stack)?;
                let mut a = pop(stack)?;
                a.extend_from_slice(&b);
                stack.push(a);
            }
            0x7f => {
                let n = pop_number(stack)?.first().copied().unwrap_or(0) as usize;
                let x = pop(stack)?;
                if n > x.len() {
                    return Err("SPLIT".to_string());
                }
                stack.push(x[..n].to_vec());
                stack.push(x[n..].to_vec());
            }
            0x88 => {
                let b = pop(stack)?;
                let a = pop(stack)?;
                if a != b {
                    return Err("EQUALVERIFY".to_string());
                }
            }
            0x93 | 0x95 | 0x97 | 0x9d | 0x9f => {
                let b = pop_number(stack)?;
                let a = pop_number(stack)?;
                match op {
                    0x93 => stack.push(to_item(&add(&a, &b))),
                    0x95 => stack.push(to_item(&mul(&a, &b))),
                    0x97 => {
                        if b.is_empty() {
                            return Err("MOD".to_string());
                        }
                        stack.push(to_item(&rem(&a, &b)));
                    }
                    0x9d => {
                        if a != b {
                            return Err("NUMEQUALVERIFY".to_string());
                        }
                    }
                    _ => stack.push(if less(&a, &b) { vec![1] } else { vec![] }),
                }
            }
            0xa8 => {
                let x = pop(stack)?;
                stack.push(sha256(&x));
            }
            0xa9 => {
                let x = pop(stack)?;
                stack.push(hash160(&x).to_vec());
            }
            0xac => {
                let _key = pop(stack)?;
                let signature = pop(stack)?;
                stack.push(if signature.is_empty() { vec![] } else { vec![1] });
            }
            other => return Err(format!("opcode {:#x}", other)),
        }
    }
    Ok(())
}

fn spend(unlocking: &[u8], locking: &[u8]) -> Result<Vec<Vec<u8>>, String> {
    let mut stack = Vec::new();
    let mut alt = Vec::new();
    run(unlocking, &mut stack, &mut alt)?;
    run(locking, &mut stack, &mut alt)?;
    assert!(alt.is_empty());
    Ok(stack)
}

fn element(n: u64) -> [u8; 32] {
    Fp::from_u64(n).to_repr()
}

// A state whose first output element has a zero last byte is looked for, so
// that the comparison is made between encodings of different lengths too.
fn states() -> Vec<[Fp; 3]> {
    let constants = FusedPoseidonConstants::compute();
    let mut found = vec![[Fp::from_u64(1), Fp::from_u64(2), Fp::from_u64(3)]];
    let mut i = 0u64;
    while found.len() < 2 && i < 2000 {
        let state = [Fp::from_u64(i), Fp::from_u64(7), Fp::zero()];
        if constants.permute(state)[0].to_repr()[31] == 0 {
            found.push(state);
        }
        i += 1;
    }
    found
}

#[test]
fn witness_program_accepts_the_permuted_state_and_nothing_else() {
    let constants = FusedPoseidonConstants::compute();
    let locking = generate_witness_locking_script();
    let all = states();
    assert_eq!(all.len(), 2);
    for state in all {
        let expected = constants.permute(state)[0];
        let unlocking = generate_witness_unlocking_script(state, expected);
        let left = spend(&unlocking, &locking).unwrap();
        assert_eq!(left.len(), 90);
        assert_eq!(left[0], PALLAS_MODULUS_BYTES.to_vec());
        assert_eq!(left.concat(), constants.to_blob());
        let wrong = generate_witness_unlocking_script(state, expected.add(&Fp::one()));
        assert_eq!(spend(&wrong, &locking), Err("NUMEQUALVERIFY".to_string()));
        let other = [state[0], state[1].add(&Fp::one()), state[2]];
        let wrong = generate_witness_unlocking_script(other, expected);
        assert_eq!(spend(&wrong, &locking), Err("NUMEQUALVERIFY".to_string()));
    }
}

#[test]
fn witness_program_refuses_a_blob_with_one_byte_changed() {
    let constants = FusedPoseidonConstants::compute();
    let locking = generate_witness_locking_script();
    let state = [Fp::from_u64(1), Fp::from_u64(2), Fp::from_u64(3)];
    let unlocking = generate_witness_unlocking_script(state, constants.permute(state)[0]);
    for at in [3usize, 3 + 31, 3 + 32, 3 + 1500, 3 + 2879] {
        let mut changed = unlocking.clone();
        changed[at] ^= 1;
        assert_eq!(spend(&changed, &locking), Err("EQUALVERIFY".to_string()));
    }
}

fn signed_spend(contract: &VerifierContract, key: &[u8]) -> ContractTransactionBuilder {
    let rounds = 1 + (contract.current_state.step % 3) as usize;
    let witness =
        generate_mock_proof(&contract.current_state.transcript_hash, rounds, vec![element(9)])
            .unwrap();
    ContractTransactionBuilder::new(
        ContractOutput::new(contract, 1000),
        witness,
        contract.operator_pkh,
    )
    .with_signature(vec![0x30; 71], key.to_vec())
}

#[test]
fn contract_program_accepts_what_the_contract_unlocks_with() {
    let key = [2u8; 33];
    for step in [0u32, 1, 0x8000_0000, u32::MAX - 1] {
        let state = IPAAccumulator {
            transcript_hash: element(11 + step as u64),
            app_state_root: element(5),
            step,
        };
        let contract = VerifierContract::new(hash160(&key), state).unwrap();
        let builder = signed_spend(&contract, &key);
        let unlocking = builder.build_unlocking_script().unwrap();
        let left = spend(&unlocking, &contract.locking_script()).unwrap();
        // The published fields, the 90 items of the blob, the outcome of
        // the signature check.
        let fields = builder.witness.field_list();
        assert_eq!(left.len(), fields.len() + 90 + 1);
        for (i, field) in fields.iter().enumerate() {
            assert_eq!(left[i], field.to_vec());
        }
        assert_eq!(left[fields.len()..fields.len() + 90].concat(), contract.constants.to_blob());
        assert_eq!(left[left.len() - 1], vec![1]);
        // The next contract is unlocked in the same way.
        let next = contract.apply_transition(&builder.witness).unwrap();
        let builder = signed_spend(&next, &key);
        let unlocking = builder.build_unlocking_script().unwrap();
        assert!(spend(&unlocking, &next.locking_script()).is_ok());
        assert!(spend(&unlocking, &contract.locking_script()).is_err());
    }
}

#[test]
fn contract_program_refuses_a_changed_blob_record_or_key() {
    let key = [2u8; 33];
    let contract =
        VerifierContract::new(hash160(&key), IPAAccumulator::new(element(5))).unwrap();
    let locking = contract.locking_script();
    let builder = signed_spend(&contract, &key);
    let unlocking = builder.build_unlocking_script().unwrap();
    assert!(spend(&unlocking, &locking).is_ok());
    // The digest of the blob is held against the constants hash.
    for at in [3usize, 3 + 40, 3 + 2879] {
        let mut changed = unlocking.clone();
        changed[at] ^= 1;
        assert_eq!(spend(&changed, &locking), Err("EQUALVERIFY".to_string()));
    }
    // The record is held against the state commitment.
    let record = 2883 + 1;
    for at in [record, record + 32, record + 64] {
        let mut changed = unlocking.clone();
        changed[at] ^= 1;
        assert_eq!(spend(&changed, &locking), Err("NUMEQUALVERIFY".to_string()));
    }
    // The witness fields are published; the stored program does not read
    // them.
    let mut changed = unlocking.clone();
    changed[2952 + 5] ^= 1;
    assert!(spend(&changed, &locking).is_ok());
    // The key is held against the operator's key hash.
    let mut changed = unlocking.clone();
    let last = changed.len() - 1;
    changed[last] ^= 1;
    assert_eq!(spend(&changed, &locking), Err("EQUALVERIFY".to_string()));
    let other = VerifierContract::new(hash160(&[3u8; 33]), IPAAccumulator::new(element(5)))
        .unwrap();
    assert_eq!(spend(&unlocking, &other.locking_script()), Err("EQUALVERIFY".to_string()));
}
