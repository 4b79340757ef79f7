use vstd::prelude::*;
use vstd::string::*;
use crate::errors::DeserializeError;
use crate::json::{json_decoded, Json};
use crate::objects::kinds::Kind;
use crate::objects::meta::{GlobalProposalMetadata, TypeMeta};
use crate::objects::parts::{
    check_parts, fault_of, lemma_parts_well_formed, parts_tree, ParseFault, Parts, PartsView,
};
use crate::objects::v1::proposal::{
    actions_json, actions_of, actions_well_formed, lemma_proposal_spec, lemma_proposal_well_formed, lemma_status,
    proposal_parsed, proposal_parts, read_actions, ProposalSpec, ProposalStatus,
};

verus! {

/// A proposal on global objects.
#[derive(Debug)]
pub struct GlobalProposal {
    pub type_meta: TypeMeta,
    pub metadata: GlobalProposalMetadata,
    pub spec: ProposalSpec,
    pub status: ProposalStatus,
}

impl View for GlobalProposal {
    type V = PartsView;

    open spec fn view(&self) -> PartsView {
        proposal_parts(
            self.type_meta.api_version@,
            self.type_meta.kind@,
            self.metadata.name@,
            None,
            self.metadata.uid,
            self.metadata.creator@,
            actions_of(self.spec.actions@),
            self.status@,
        )
    }
}

impl GlobalProposal {
    /// The JSON that the proposal holds has no key twice in any object, and no organization is named twice.
    pub open spec fn wf(&self) -> bool {
        actions_well_formed(actions_of(self.spec.actions@)) && self.status@.well_formed()
    }

    /// Whether the proposal may still be permitted, committed or revoked.
    pub fn is_active(&self) -> (r: bool)
        ensures
            r == (self.status.stage is Active),
    {
        self.status.stage.is_active()
    }

    /// Whether the proposal was revoked.
    pub fn is_revoked(&self) -> (r: bool)
        ensures
            r == (self.status.stage is Revoked),
    {
        self.status.stage.is_revoked()
    }

    /// Whether the proposal was committed.
    pub fn is_committed(&self) -> (r: bool)
        ensures
            r == (self.status.stage is Submitted),
    {
        self.status.stage.is_submitted()
    }

    /// The parts of the proposal.
    pub fn to_parts(&self) -> (p: Parts)
        ensures
            p@ == self@,
    {
        Parts {
            type_meta: self.type_meta.copy(),
            name: self.metadata.name.clone(),
            namespace: None,
            version: None,
            uid: self.metadata.uid,
            creator: Some(self.metadata.creator.clone()),
            annotations: None,
            spec: actions_json(&self.spec.actions),
            status: Some(self.status.to_value()),
        }
    }

    /// The JSON form of the proposal.
    pub fn to_value(&self) -> (j: Json)
        ensures
            j@ == parts_tree(self@),
            self.wf() ==> j@.well_formed(),
    {
        proof {
            if self.wf() {
                lemma_proposal_spec(actions_of(self.spec.actions@));
                lemma_status(self.status@);
                lemma_parts_well_formed(self@);
            }
        }
        self.to_parts().write()
    }

    /// Reads a global proposal from its JSON form and holds it against the type's tag and the naming grammar.
    pub fn parse_from_value(value: &Json) -> (r: Result<GlobalProposal, DeserializeError>)
        ensures
            match r {
                Ok(p) => proposal_parsed(Kind::GlobalProposal, value@) == Ok::<PartsView, ParseFault>(p@) && (
                value@.well_formed() ==> p.wf()),
                Err(e) => proposal_parsed(Kind::GlobalProposal, value@) == Err::<PartsView, ParseFault>(fault_of(e)) && crate::objects::parts::says(
                    e,
                    Kind::GlobalProposal,
                    value@,
                ),
            },
    {
        let parts = match Parts::read(value) {
            Some(p) => p,
            None => { return Err(DeserializeError::JsonError(String::from_str("malformed object"))); },
        };
        let actions = match read_actions(&parts.spec) {
            Some(a) => a,
            None => { return Err(DeserializeError::JsonError(String::from_str("malformed actions"))); },
        };
        let status = match ProposalStatus::from_value(&parts.status) {
            Some(s) => s,
            None => { return Err(DeserializeError::JsonError(String::from_str("malformed status"))); },
        };
        match check_parts(Kind::GlobalProposal, &parts.type_meta, parts.name.as_str()) {
            Ok(()) => {},
            Err(e) => { return Err(e); },
        }
        let creator = match parts.creator {
            Some(c) => c,
            None => String::new(),
        };
        proof {
            if value@.well_formed() {
                lemma_proposal_well_formed(Kind::GlobalProposal, value@);
                lemma_proposal_spec(actions_of(actions@));
                lemma_status(status@);
            }
        }
        Ok(
            GlobalProposal {
                type_meta: parts.type_meta,
                metadata: GlobalProposalMetadata { name: parts.name, uid: parts.uid, creator },
                spec: ProposalSpec { actions },
                status,
            },
        )
    }

    /// Reads a global proposal from JSON text.
    pub fn parse_from_slice(text: &[u8]) -> (r: Result<GlobalProposal, DeserializeError>)
        ensures
            match r {
                Ok(p) => json_decoded(text@) matches Some(j) && proposal_parsed(Kind::GlobalProposal, j) == Ok::<
                    PartsView,
                    ParseFault,
                >(p@) && p.wf(),
                Err(e) => match json_decoded(text@) {
                    Some(j) => proposal_parsed(Kind::GlobalProposal, j) == Err::<PartsView, ParseFault>(fault_of(e)) && crate::objects::parts::says(
                        e,
                        Kind::GlobalProposal,
                        j,
                    ),
                    None => fault_of(e) == ParseFault::Malformed,
                },
            },
    {
        match Json::parse(text) {
            Ok(j) => GlobalProposal::parse_from_value(&j),
            Err(msg) => Err(DeserializeError::JsonError(msg)),
        }
    }
}

} // verus!
