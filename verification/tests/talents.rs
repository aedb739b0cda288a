use mage_sim::constants::{Talent, TalentError, TalentPoints, TeamTalentPoints};

#[test]
fn default_build_has_five_points_in_fire_power() {
    let t = TalentPoints::new();
    assert_eq!(t.get(Talent::FirePower), 5);
    assert_eq!(t.get(Talent::ArcaneSubtlety), 2);
    assert_eq!(t.get(Talent::ElementalPrecision), 3);
    assert_eq!(t.get(Talent::IceBarrier), 0);
}

#[test]
fn set_changes_one_talent_only() {
    let mut t = TalentPoints::new();
    t.set(Talent::Ignite, 1);
    assert_eq!(t.get(Talent::Ignite), 1);
    assert_eq!(t.get(Talent::ImprovedFireball), 5);
    assert_eq!(t.get(Talent::FlameThrowing), 2);
}

#[test]
fn from_vec_keeps_every_entry() {
    let data: Vec<u8> = (0..49).collect();
    let t = TalentPoints::from_vec(data).unwrap();
    assert_eq!(t.get(Talent::ArcaneSubtlety), 0);
    assert_eq!(t.get(Talent::Combustion), 31);
    assert_eq!(t.get(Talent::IceBarrier), 48);
}

#[test]
fn from_vec_refuses_a_short_table() {
    let r = TalentPoints::from_vec(vec![1, 2, 3]);
    assert_eq!(r.err(), Some(TalentError::WrongLength { got: 3 }));
    let r = TalentPoints::from_vec(vec![0; 50]);
    assert_eq!(r.err(), Some(TalentError::WrongLength { got: 50 }));
}

#[test]
fn team_talents_by_position() {
    let mut team = TeamTalentPoints::new(2);
    assert_eq!(team.team.len(), 2);
    assert_eq!(team.set_mage_talents(2, vec![0; 49]), Err(TalentError::IndexOutOfBounds { index: 2 }));
    assert_eq!(team.set_mage_talents(1, vec![0; 48]), Err(TalentError::WrongLength { got: 48 }));
    assert_eq!(team.set_mage_talents(1, vec![4; 49]), Ok(()));
    assert_eq!(team.get_mage_talents(1).unwrap().get(Talent::FirePower), 4);
    assert_eq!(team.get_mage_talents(0).unwrap().get(Talent::FirePower), 5);
    assert!(team.get_mage_talents(2).is_none());
}

#[test]
fn a_fault_reads_in_words() {
    assert_eq!(TalentError::WrongLength { got: 3 }.message(), "Expected 49 talents, got 3");
    assert_eq!(TalentError::WrongLength { got: 0 }.message(), "Expected 49 talents, got 0");
    assert_eq!(TalentError::WrongLength { got: 1050 }.message(), "Expected 49 talents, got 1050");
    assert_eq!(TalentError::IndexOutOfBounds { index: 12 }.message(), "Index 12 out of bounds");
    assert_eq!(
        TalentPoints::from_vec(vec![0; 48]).unwrap_err().message(),
        format!("Expected 49 talents, got {}", 48)
    );
    let mut team = TeamTalentPoints::new(1);
    assert_eq!(
        team.set_mage_talents(9, vec![]).unwrap_err().message(),
        format!("Index {} out of bounds", 9)
    );
}
