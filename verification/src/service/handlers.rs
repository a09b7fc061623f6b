//! The entry points of the service.
use crate::clipboard::{encode_clipboard_msg, MAX_CLIPBOARD_SIZE};
use crate::file_drop::FileDropEvent;
use crate::ipc::{FrontendEvent, FrontendRequest, Status};
use crate::net::IpAddr;
use crate::service::machine::Service;
use crate::service::model;
use crate::service::model::{CaptureEvent, Effect, EmulationEvent, ENTER_HANDLE_BEGIN};
use crate::text;
use vstd::prelude::*;

verus! {

impl Service {
    /// Takes a request of a frontend. `hostname_ip` is the address that a hostname in the
    /// request denotes, where it denotes one.
    pub fn handle_frontend_request(
        &mut self,
        request: FrontendRequest,
        hostname_ip: Option<IpAddr>,
    )
        requires
            old(self).wf(),
            old(self)@.clients.len() < ENTER_HANDLE_BEGIN,
        ensures
            final(self).wf(),
            final(self)@ == model::requested(old(self)@, request@, hostname_ip),
    {
        match request {
            FrontendRequest::Activate(handle, active) => {
                if active {
                    self.activate_client(handle);
                } else {
                    self.deactivate_client(handle);
                }
                self.save_config();
            },
            FrontendRequest::AuthorizeKey(desc, fp) => {
                self.add_authorized_key(desc, fp);
                self.save_config();
            },
            FrontendRequest::ChangePort(port) => self.change_port(port),
            FrontendRequest::Create => {
                self.add_client();
                self.save_config();
            },
            FrontendRequest::Delete(handle) => {
                self.remove_client(handle);
                self.save_config();
            },
            FrontendRequest::EnableCapture => self.effect(Effect::CaptureReenable),
            FrontendRequest::EnableEmulation => self.effect(Effect::EmulationReenable),
            FrontendRequest::Enumerate() => self.enumerate(),
            FrontendRequest::UpdateFixIps(handle, fix_ips) => {
                self.update_fix_ips(handle, fix_ips);
                self.save_config();
            },
            FrontendRequest::UpdateHostname(handle, host) => {
                self.update_hostname(handle, host, hostname_ip);
                self.save_config();
            },
            FrontendRequest::UpdatePort(handle, port) => {
                self.update_port(handle, port);
                self.save_config();
            },
            FrontendRequest::UpdatePosition(handle, pos) => {
                self.update_pos(handle, pos);
                self.save_config();
            },
            FrontendRequest::ResolveDns(handle) => self.resolve(handle),
            FrontendRequest::Sync => self.sync_frontend(),
            FrontendRequest::RemoveAuthorizedKey(key) => {
                self.remove_authorized_key(key);
                self.save_config();
            },
            FrontendRequest::UpdateEnterHook(handle, cmd) => self.update_enter_hook(handle, cmd),
            FrontendRequest::SaveConfiguration => self.save_config(),
            FrontendRequest::AcceptDiscoveredDevice(d) => self.accept_discovered_device(d),
            FrontendRequest::SetDiscoverable(discoverable) => self.set_discoverable(discoverable),
            FrontendRequest::UpdateSettings(settings) => self.update_settings(settings),
            FrontendRequest::RespondFileOffer { xfer_id, decision } => {
                self.handle_respond_file_offer(xfer_id, decision)
            },
            FrontendRequest::RespondClipboardOverflow { client: _, decision } => {
                self.handle_respond_clipboard_overflow(decision)
            },
            FrontendRequest::RespondClipboardImage { client: _, decision } => {
                self.handle_respond_clipboard_image(decision)
            },
            FrontendRequest::SendFile { client, path } => self.send_file(client, path),
        }
    }

    /// Takes a report of emulation.
    pub fn handle_emulation_event(&mut self, event: EmulationEvent)
        requires
            old(self).wf(),
            old(self)@.next_trigger_handle < ENTER_HANDLE_BEGIN,
        ensures
            final(self).wf(),
            final(self)@ == model::emulation_reported(old(self)@, event@),
    {
        match event {
            EmulationEvent::ConnectionAttempt { fingerprint } => {
                if self.is_discoverable() {
                    self.add_authorized_key("discovered-peer".to_owned(), fingerprint.clone());
                    self.save_config();
                }
                self.notify_frontend(FrontendEvent::ConnectionAttempt { fingerprint });
            },
            EmulationEvent::Entered { addr, pos, fingerprint } => {
                match self.find_incoming(addr) {
                    None => {
                        self.add_incoming(addr, pos, fingerprint.clone());
                        self.notify_frontend(
                            FrontendEvent::DeviceEntered { fingerprint, addr, pos },
                        );
                    },
                    Some(i) => self.update_incoming(i, addr, pos, fingerprint),
                }
            },
            EmulationEvent::Disconnected { addr } => {
                match self.remove_incoming(addr) {
                    Some(addr) => self.notify_frontend(FrontendEvent::IncomingDisconnected(addr)),
                    None => {},
                }
            },
            EmulationEvent::PortChanged(port) => match port {
                Ok(port) => self.set_port(port),
                Err(e) => self.keep_port(e),
            },
            EmulationEvent::EmulationDisabled => self.set_emulation_status(Status::Disabled),
            EmulationEvent::EmulationEnabled => self.set_emulation_status(Status::Enabled),
            EmulationEvent::ReleaseNotify => self.effect(Effect::CaptureRelease),
            EmulationEvent::Connected { addr, fingerprint } => {
                self.notify_frontend(FrontendEvent::DeviceConnected { addr, fingerprint });
            },
            EmulationEvent::ClipboardReceived(t) => {
                if self.shares_clipboard() {
                    self.effect(Effect::SetClipboard(t));
                }
            },
        }
    }

    /// Takes a report of capture; `current_text` is the text on the clipboard.
    pub fn handle_capture_event(&mut self, event: CaptureEvent, current_text: &str)
        requires
            old(self).wf(),
        ensures
            final(self).wf(),
            final(self)@ == model::capture_reported(old(self)@, event@, current_text@),
    {
        match event {
            CaptureEvent::CaptureBegin(handle) => {
                match self.find_incoming_handle(handle) {
                    Some(addr) => self.effect(Effect::SendLeave(addr)),
                    None => {},
                }
            },
            CaptureEvent::CaptureDisabled => self.set_capture_status(Status::Disabled),
            CaptureEvent::CaptureEnabled => self.set_capture_status(Status::Enabled),
            CaptureEvent::ClientEntered(handle) => {
                self.spawn_hook_command(handle);
                let len: usize = text::byte_len(current_text);
                if self.shares_clipboard() && 0 < len && len <= MAX_CLIPBOARD_SIZE {
                    let data: Vec<u8> = encode_clipboard_msg(current_text);
                    self.effect(Effect::SendClipboardToClients(data));
                }
            },
            CaptureEvent::ClipboardReceived(t) => {
                if self.shares_clipboard() {
                    self.effect(Effect::SetClipboard(t));
                }
            },
        }
    }

    /// Takes what happened at a drop zone.
    pub fn handle_file_drop_event(&mut self, event: FileDropEvent)
        requires
            old(self).wf(),
        ensures
            final(self).wf(),
            final(self)@ == model::drop_event_taken(old(self)@, event@),
    {
        match event {
            FileDropEvent::Dropped { position, paths } => {
                self.handle_file_drop(position, paths);
            },
            FileDropEvent::DragEndedEarly { position, paths } => {
                self.handle_file_drop(position, paths);
            },
            FileDropEvent::Entered(_) | FileDropEvent::Cancelled(_) => {},
            FileDropEvent::DragStarted { position, paths } => {},
        }
    }
}

} // verus!
