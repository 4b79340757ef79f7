use contract::context::Context;
use contract::contract::globalproposal::{
    commit_global_proposal_impl, create_global_proposal_impl, permit_global_proposal_impl,
    revoke_global_proposal_impl,
};
use contract::contract::proposal::{commit_proposal_impl, create_proposal_impl, permit_proposal_impl};
use contract::errors::{ActionFnError, ContractError, ProposalError};
use contract::model::ChainModel;
use contract::objects::dynamic::DynamicObject;
use contract::objects::kinds::Kind;
use contract::objects::v1::proposal::ProposalStage;

fn fresh_model(sender: &str) -> ChainModel {
    ChainModel::new(Context::fresh(sender.to_string(), vec![]))
}

fn namespace_proposal(name: &str, ns: &str, members: &[&str]) -> Vec<u8> {
    let members: Vec<String> = members.iter().map(|m| format!("\"{}\"", m)).collect();
    format!(
        "{{\"apiVersion\":\"core/v1\",\"kind\":\"globalproposal\",\"metadata\":{{\"name\":\"{}\"}},\
         \"spec\":{{\"actions\":[{{\"create\":{{\"object\":{{\"apiVersion\":\"core/v1\",\"kind\":\"namespace\",\
         \"metadata\":{{\"name\":\"{}\"}},\"spec\":{{\"members\":[{}]}}}}}}}}]}}}}",
        name,
        ns,
        members.join(",")
    )
    .into_bytes()
}

fn stage_of(model: &ChainModel, uid: u64) -> ProposalStage {
    match model.get_object_by_uid(uid).unwrap().unwrap() {
        DynamicObject::GlobalProposal(p) => p.status.stage,
        DynamicObject::Proposal(p) => p.status.stage,
        _ => panic!("not a proposal"),
    }
}

#[test]
fn scenario_namespace_needs_every_member() {
    let mut model = fresh_model("orgA");
    let uid =
        create_global_proposal_impl(&mut model, namespace_proposal("make-ns1", "ns1", &["orgA", "orgB"]), "orgA".into())
            .unwrap();
    assert_eq!(uid, 1);
    assert!(matches!(stage_of(&model, uid), ProposalStage::Active));

    permit_global_proposal_impl(&mut model, uid, true, "fine".into(), "orgA".into()).unwrap();
    let refused = commit_global_proposal_impl(&mut model, uid, "orgA".into());
    assert!(matches!(refused, Err(ContractError::ActionFn(ActionFnError::NotCommitable(_, _)))));
    assert!(matches!(stage_of(&model, uid), ProposalStage::Active));
    assert_eq!(model.ctx().next_uid(), 2);

    permit_global_proposal_impl(&mut model, uid, true, "fine too".into(), "orgB".into()).unwrap();
    let results = commit_global_proposal_impl(&mut model, uid, "orgA".into()).unwrap();
    assert!(matches!(stage_of(&model, uid), ProposalStage::Submitted));
    assert_eq!(model.ctx().next_uid(), 3);
    let made = model.get_object_by_uid(2).unwrap().unwrap();
    assert!(matches!(made.object_kind(), Kind::Namespace));
    assert_eq!(made.name(), "ns1");
    assert_eq!(made.uid(), 2);
    let text = String::from_utf8(results).unwrap();
    assert_eq!(
        text,
        "[{\"create\":{\"apiVersion\":\"core/v1\",\"kind\":\"namespace\",\"metadata\":{\"name\":\"ns1\",\"uid\":2,\"annotations\":null},\
         \"spec\":{\"members\":[\"orgA\",\"orgB\"]}}}]"
    );
}

#[test]
fn scenario_revoked_proposal_is_dead() {
    let mut model = fresh_model("orgA");
    let uid = create_global_proposal_impl(&mut model, namespace_proposal("make-ns1", "ns1", &["orgA"]), "orgA".into())
        .unwrap();
    let other = revoke_global_proposal_impl(&mut model, uid, "orgB".into());
    assert!(matches!(other, Err(ContractError::Proposal(ProposalError::RevokeForbidden))));
    revoke_global_proposal_impl(&mut model, uid, "orgA".into()).unwrap();
    assert!(matches!(stage_of(&model, uid), ProposalStage::Revoked));
    let permit = permit_global_proposal_impl(&mut model, uid, true, "late".into(), "orgA".into());
    assert!(matches!(permit, Err(ContractError::Proposal(ProposalError::InActive(1)))));
    let commit = commit_global_proposal_impl(&mut model, uid, "orgA".into());
    assert!(matches!(commit, Err(ContractError::Proposal(ProposalError::InActive(1)))));
    let again = revoke_global_proposal_impl(&mut model, uid, "orgA".into());
    assert!(matches!(again, Err(ContractError::Proposal(ProposalError::InActive(1)))));
    assert!(model.get_object_by_uid(2).unwrap().is_none());
}

fn record_proposal(name: &str, ns: &str, record: &str, authors: &[&str]) -> Vec<u8> {
    let authors: Vec<String> = authors.iter().map(|m| format!("\"{}\"", m)).collect();
    format!(
        "{{\"apiVersion\":\"core/v1\",\"kind\":\"proposal\",\"metadata\":{{\"name\":\"{}\",\"namespace\":\"{}\"}},\
         \"spec\":{{\"actions\":[{{\"create\":{{\"object\":{{\"apiVersion\":\"core/v1\",\"kind\":\"record\",\
         \"metadata\":{{\"name\":\"{}\",\"namespace\":\"{}\"}},\"spec\":{{\"content\":{{\"n\":1.5}},\"authors\":[{}]}}}}}}}}]}}}}",
        name,
        ns,
        record,
        ns,
        authors.join(",")
    )
    .into_bytes()
}

fn delete_proposal(name: &str, uid: u64) -> Vec<u8> {
    format!(
        "{{\"apiVersion\":\"core/v1\",\"kind\":\"globalproposal\",\"metadata\":{{\"name\":\"{}\"}},\
         \"spec\":{{\"actions\":[{{\"delete\":{{\"uid\":{}}}}}]}}}}",
        name, uid
    )
    .into_bytes()
}

#[test]
fn cascade_delete_empties_the_namespace() {
    let mut model = fresh_model("orgA");
    let p1 = create_global_proposal_impl(&mut model, namespace_proposal("make-ns1", "ns1", &["orgA"]), "orgA".into())
        .unwrap();
    permit_global_proposal_impl(&mut model, p1, true, "".into(), "orgA".into()).unwrap();
    commit_global_proposal_impl(&mut model, p1, "orgA".into()).unwrap();
    let ns_uid = 2;

    let p2 = create_proposal_impl(&mut model, record_proposal("add-r1", "ns1", "r1", &["orgA"]), "ns1".into(), "orgA".into())
        .unwrap();
    permit_proposal_impl(&mut model, p2, true, "".into(), "orgA".into()).unwrap();
    commit_proposal_impl(&mut model, p2, "orgA".into()).unwrap();
    let record_uid = p2 + 1;
    assert!(model.get_object_by_uid(record_uid).unwrap().is_some());
    assert_eq!(model.get_uid_by_ns("ns1").unwrap(), vec![p2, record_uid]);

    let p3 = create_global_proposal_impl(&mut model, delete_proposal("drop-ns1", ns_uid), "orgA".into()).unwrap();
    permit_global_proposal_impl(&mut model, p3, true, "".into(), "orgA".into()).unwrap();
    commit_global_proposal_impl(&mut model, p3, "orgA".into()).unwrap();
    assert!(model.get_object_by_uid(ns_uid).unwrap().is_none());
    assert!(model.get_object_by_uid(record_uid).unwrap().is_none());
    assert!(model.get_object_by_uid(p2).unwrap().is_none());
    assert!(model.get_uid_by_ns("ns1").unwrap().is_empty());
    assert!(model.get_object_by_uid(p1).unwrap().is_some());
    assert!(model.get_object_by_uid(p3).unwrap().is_some());
}

#[test]
fn duplicate_create_is_refused_before_any_change() {
    let mut model = fresh_model("orgA");
    let p1 = create_global_proposal_impl(&mut model, namespace_proposal("make-ns1", "ns1", &["orgA"]), "orgA".into())
        .unwrap();
    permit_global_proposal_impl(&mut model, p1, true, "".into(), "orgA".into()).unwrap();
    commit_global_proposal_impl(&mut model, p1, "orgA".into()).unwrap();
    let rows_before = model.ctx().entries().len();
    let counter_before = model.ctx().next_uid();
    let second = create_global_proposal_impl(&mut model, namespace_proposal("again", "ns1", &["orgA"]), "orgA".into());
    assert!(matches!(second, Err(ContractError::ActionFn(ActionFnError::NotSupport(_, _)))));
    assert_eq!(model.ctx().entries().len(), rows_before);
    assert_eq!(model.ctx().next_uid(), counter_before);
}

#[test]
fn cascade_delete_spares_other_namespaces() {
    let mut model = fresh_model("orgA");
    let mut made = Vec::new();
    for ns in ["ns1", "ns10"] {
        let p = create_global_proposal_impl(&mut model, namespace_proposal(&format!("make-{}", ns), ns, &["orgA"]), "orgA".into())
            .unwrap();
        permit_global_proposal_impl(&mut model, p, true, "".into(), "orgA".into()).unwrap();
        commit_global_proposal_impl(&mut model, p, "orgA".into()).unwrap();
        let q = create_proposal_impl(&mut model, record_proposal("add-r1", ns, "r1", &["orgA"]), ns.into(), "orgA".into())
            .unwrap();
        permit_proposal_impl(&mut model, q, true, "".into(), "orgA".into()).unwrap();
        commit_proposal_impl(&mut model, q, "orgA".into()).unwrap();
        made.push((p + 1, q, q + 1));
    }
    let (ns1, p1, r1) = made[0];
    let (ns10, p10, r10) = made[1];
    let before = model.get_raw_object_by_uid(r10).unwrap().unwrap();
    let drop = create_global_proposal_impl(&mut model, delete_proposal("drop-ns1", ns1), "orgA".into()).unwrap();
    permit_global_proposal_impl(&mut model, drop, true, "".into(), "orgA".into()).unwrap();
    commit_global_proposal_impl(&mut model, drop, "orgA".into()).unwrap();
    assert!(model.get_object_by_uid(ns1).unwrap().is_none());
    assert!(model.get_object_by_uid(p1).unwrap().is_none());
    assert!(model.get_object_by_uid(r1).unwrap().is_none());
    assert!(model.get_object_by_uid(ns10).unwrap().is_some());
    assert!(model.get_object_by_uid(p10).unwrap().is_some());
    assert_eq!(model.get_raw_object_by_uid(r10).unwrap().unwrap(), before);
    assert_eq!(model.get_uid_by_ns("ns10").unwrap(), vec![p10, r10]);
}
