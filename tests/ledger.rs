use artwork_contract::{ArtworkInvestmentContract, ArtworkState, InvestError, Principal};

fn principal(name: &str) -> Principal {
    Principal::new(name.as_bytes().to_vec())
}

#[test]
fn test_investment_flow() {
    let mut ledger = ArtworkInvestmentContract::new();
    let artwork_id: &[u8] = b"art-001";
    let investor1 = principal("GINVESTORONE");
    let investor2 = principal("GINVESTORTWO");

    ledger.set_funding_goal(artwork_id, 10000);

    assert_eq!(ledger.get_total_invested(artwork_id), 0);
    assert_eq!(ledger.get_last_investor(artwork_id), None);
    assert_eq!(ledger.is_fully_funded(artwork_id), false);

    assert_eq!(ledger.invest(artwork_id, investor1.clone(), 5000, true), Ok(()));

    assert_eq!(ledger.get_total_invested(artwork_id), 5000);
    assert_eq!(ledger.get_last_investor(artwork_id), Some(investor1.clone()));
    assert_eq!(ledger.is_fully_funded(artwork_id), false);

    assert_eq!(ledger.invest(artwork_id, investor2.clone(), 5000, true), Ok(()));

    assert_eq!(ledger.get_total_invested(artwork_id), 10000);
    assert_eq!(ledger.get_last_investor(artwork_id), Some(investor2));
    assert_eq!(ledger.is_fully_funded(artwork_id), true);
}

#[test]
fn scenario_goal_then_two_investors() {
    let mut ledger = ArtworkInvestmentContract::new();
    let t1: &[u8] = b"t1";
    ledger.set_funding_goal(t1, 10000);
    assert_eq!(ledger.get_total_invested(t1), 0);
    assert_eq!(ledger.get_last_investor(t1), None);
    assert!(!ledger.is_fully_funded(t1));
    let a = principal("A");
    let b = principal("B");
    assert_eq!(ledger.invest(t1, a.clone(), 5000, true), Ok(()));
    assert_eq!(ledger.get_total_invested(t1), 5000);
    assert_eq!(ledger.get_last_investor(t1), Some(a));
    assert!(!ledger.is_fully_funded(t1));
    assert_eq!(ledger.invest(t1, b.clone(), 5000, true), Ok(()));
    assert_eq!(ledger.get_total_invested(t1), 10000);
    assert_eq!(ledger.get_last_investor(t1), Some(b));
    assert!(ledger.is_fully_funded(t1));
}

#[test]
fn no_goal_never_funded() {
    let mut ledger = ArtworkInvestmentContract::new();
    let t2: &[u8] = b"t2";
    assert_eq!(ledger.invest(t2, principal("A"), 1_000_000, true), Ok(()));
    assert_eq!(ledger.get_total_invested(t2), 1_000_000);
    assert!(!ledger.is_fully_funded(t2));
}

#[test]
fn no_goal_at_largest_total_is_not_funded() {
    let mut ledger = ArtworkInvestmentContract::new();
    let t: &[u8] = b"max";
    assert_eq!(ledger.invest(t, principal("A"), u32::MAX, true), Ok(()));
    assert_eq!(ledger.get_total_invested(t), u32::MAX);
    assert!(!ledger.is_fully_funded(t));
}

#[test]
fn unauthorized_attempt_changes_nothing() {
    let mut ledger = ArtworkInvestmentContract::new();
    let t: &[u8] = b"t3";
    let a = principal("A");
    assert_eq!(ledger.invest(t, a.clone(), 700, true), Ok(()));
    assert_eq!(
        ledger.invest(t, principal("MALLORY"), 300, false),
        Err(InvestError::Unauthorized)
    );
    assert_eq!(ledger.get_total_invested(t), 700);
    assert_eq!(ledger.get_last_investor(t), Some(a));
}

#[test]
fn unauthorized_first_attempt_leaves_artwork_untouched() {
    let mut ledger = ArtworkInvestmentContract::new();
    let t: &[u8] = b"fresh";
    assert_eq!(
        ledger.invest(t, principal("A"), 10, false),
        Err(InvestError::Unauthorized)
    );
    assert_eq!(ledger.get_total_invested(t), 0);
    assert_eq!(ledger.get_last_investor(t), None);
}

#[test]
fn unauthorized_comes_before_overflow() {
    let mut ledger = ArtworkInvestmentContract::new();
    let t: &[u8] = b"t";
    assert_eq!(ledger.invest(t, principal("A"), u32::MAX, true), Ok(()));
    assert_eq!(
        ledger.invest(t, principal("B"), 1, false),
        Err(InvestError::Unauthorized)
    );
}

#[test]
fn overflowing_investment_is_refused() {
    let mut ledger = ArtworkInvestmentContract::new();
    let t: &[u8] = b"big";
    let a = principal("A");
    assert_eq!(ledger.invest(t, a.clone(), u32::MAX - 5, true), Ok(()));
    assert_eq!(ledger.invest(t, principal("B"), 6, true), Err(InvestError::Overflow));
    assert_eq!(ledger.get_total_invested(t), u32::MAX - 5);
    assert_eq!(ledger.get_last_investor(t), Some(a));
    assert_eq!(ledger.invest(t, principal("C"), 5, true), Ok(()));
    assert_eq!(ledger.get_total_invested(t), u32::MAX);
}

#[test]
fn total_is_sum_in_any_order() {
    let amounts: [u32; 4] = [17, 250, 3, 4096];
    let mut forward = ArtworkInvestmentContract::new();
    let mut backward = ArtworkInvestmentContract::new();
    let t: &[u8] = b"sum";
    for (i, amount) in amounts.iter().enumerate() {
        let who = principal(&format!("INV{}", i));
        assert_eq!(forward.invest(t, who, *amount, true), Ok(()));
    }
    for (i, amount) in amounts.iter().enumerate().rev() {
        let who = principal(&format!("INV{}", i));
        assert_eq!(backward.invest(t, who, *amount, true), Ok(()));
    }
    assert_eq!(forward.get_total_invested(t), 4366);
    assert_eq!(backward.get_total_invested(t), 4366);
    assert_eq!(forward.get_last_investor(t), Some(principal("INV3")));
    assert_eq!(backward.get_last_investor(t), Some(principal("INV0")));
}

#[test]
fn goal_is_write_once() {
    let mut ledger = ArtworkInvestmentContract::new();
    let t: &[u8] = b"goal";
    ledger.set_funding_goal(t, 100);
    ledger.set_funding_goal(t, 5);
    assert_eq!(ledger.invest(t, principal("A"), 50, true), Ok(()));
    assert!(!ledger.is_fully_funded(t));
    assert_eq!(ledger.invest(t, principal("A"), 50, true), Ok(()));
    assert!(ledger.is_fully_funded(t));
}

#[test]
fn goal_set_after_investments() {
    let mut ledger = ArtworkInvestmentContract::new();
    let t: &[u8] = b"late";
    assert_eq!(ledger.invest(t, principal("A"), 300, true), Ok(()));
    assert!(!ledger.is_fully_funded(t));
    ledger.set_funding_goal(t, 300);
    assert!(ledger.is_fully_funded(t));
    ledger.set_funding_goal(t, 1000);
    assert!(ledger.is_fully_funded(t));
}

#[test]
fn zero_goal_is_met_at_once() {
    let mut ledger = ArtworkInvestmentContract::new();
    let t: &[u8] = b"zero";
    ledger.set_funding_goal(t, 0);
    assert!(ledger.is_fully_funded(t));
    assert_eq!(ledger.get_last_investor(t), None);
}

#[test]
fn funded_stays_funded() {
    let mut ledger = ArtworkInvestmentContract::new();
    let t: &[u8] = b"mono";
    ledger.set_funding_goal(t, 10);
    assert_eq!(ledger.invest(t, principal("A"), 10, true), Ok(()));
    assert!(ledger.is_fully_funded(t));
    assert_eq!(ledger.invest(t, principal("B"), 0, true), Ok(()));
    assert!(ledger.is_fully_funded(t));
    assert_eq!(ledger.invest(t, principal("C"), 7, false), Err(InvestError::Unauthorized));
    assert_eq!(ledger.invest(t, principal("D"), u32::MAX, true), Err(InvestError::Overflow));
    assert!(ledger.is_fully_funded(t));
}

#[test]
fn artworks_are_independent() {
    let mut ledger = ArtworkInvestmentContract::new();
    let a: &[u8] = b"a";
    let b: &[u8] = b"b";
    let empty: &[u8] = b"";
    ledger.set_funding_goal(a, 5);
    assert_eq!(ledger.invest(b, principal("X"), 9, true), Ok(()));
    assert_eq!(ledger.invest(empty, principal("Y"), 2, true), Ok(()));
    assert_eq!(ledger.get_total_invested(a), 0);
    assert_eq!(ledger.get_last_investor(a), None);
    assert!(!ledger.is_fully_funded(a));
    assert_eq!(ledger.get_total_invested(b), 9);
    assert!(!ledger.is_fully_funded(b));
    assert_eq!(ledger.get_total_invested(empty), 2);
    assert_eq!(ledger.get_last_investor(empty), Some(principal("Y")));
}

#[test]
fn artwork_state_transitions() {
    let mut state = ArtworkState::new();
    assert!(!state.is_fully_funded());
    state.set_funding_goal(20);
    state.set_funding_goal(1);
    assert_eq!(state.funding_goal, Some(20));
    assert_eq!(state.invest(principal("A"), 15, true), Ok(()));
    assert_eq!(state.invest(principal("B"), 15, false), Err(InvestError::Unauthorized));
    assert_eq!(state.total_invested, 15);
    assert_eq!(state.last_investor(), Some(principal("A")));
    assert_eq!(state.invest(principal("B"), 5, true), Ok(()));
    assert!(state.is_fully_funded());
    assert_eq!(state.last_investor(), Some(principal("B")));
}

#[test]
fn principal_keeps_its_bytes() {
    let p = principal("GABC");
    assert_eq!(p.as_bytes(), b"GABC");
    assert_eq!(p.clone().as_bytes(), b"GABC");
}
