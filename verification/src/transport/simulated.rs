//! A device kept entirely in software: a register file that answers as the
//! transport contract says a device does.
//!
//! It agrees to a feature subset exactly when the subset holds nothing it did
//! not offer and everything it insists on.
use vstd::prelude::*;

use crate::hal::PhysAddr;
use crate::transport::{
    DeviceType, QueueConfig, Transport, TransportState, STATUS_FEATURES_OK,
};
use crate::Error;

verus! {

/// The registers of one queue of the device.
#[derive(Clone, Copy, Debug)]
pub struct QueueRegisters {
    /// The largest size the device takes for this queue.
    pub max: u32,
    /// What the driver has programmed, if anything.
    pub config: Option<QueueConfig>,
}

/// Whether a device that offers `offered` and insists on `required` agrees to `features`.
pub open spec fn agrees(offered: u64, required: u64, features: u64) -> bool {
    features & !offered == 0 && features & required == required
}

/// The feature subsets that a device agrees to.
pub open spec fn acceptable_sets(offered: u64, required: u64) -> Set<u64> {
    Set::new(|features: u64| agrees(offered, required, features))
}

/// The queues that have been programmed.
pub open spec fn programmed(registers: Seq<QueueRegisters>) -> Map<u16, QueueConfig> {
    Map::new(
        |q: u16| q < registers.len() && registers[q as int].config is Some,
        |q: u16| registers[q as int].config->0,
    )
}

/// The largest size of each queue.
pub open spec fn maxima(registers: Seq<QueueRegisters>) -> Seq<u32> {
    Seq::new(registers.len(), |i: int| registers[i].max)
}

/// A device kept in software.
pub struct SimulatedTransport {
    device_type: DeviceType,
    vendor_id: u32,
    status: u8,
    offered: u64,
    required: u64,
    accepted: u64,
    queues: Vec<QueueRegisters>,
    notifications: Vec<u16>,
    interrupt_pending: bool,
    config: Vec<u8>,
}

impl SimulatedTransport {
    /// The features the device insists on.
    pub closed spec fn required(&self) -> u64 {
        self.required
    }

    /// A device in reset that offers `offered`, refuses every feature subset
    /// that lacks a bit of `required`, has one queue for each entry of
    /// `queue_max`, and shows `config` as its configuration region.
    pub fn new(
        device_type: DeviceType,
        vendor_id: u32,
        offered: u64,
        required: u64,
        queue_max: &[u32],
        config: Vec<u8>,
    ) -> (t: Self)
        ensures
            t.wf(),
            t.required() == required,
            t.view() == (TransportState {
                device_type,
                vendor_id,
                status: 0,
                offered,
                acceptable: acceptable_sets(offered, required),
                accepted: 0,
                queue_max: queue_max@,
                queues: Map::empty(),
                notifications: Seq::empty(),
                interrupt_pending: false,
                config: config@,
            }),
    {
        let mut queues: Vec<QueueRegisters> = Vec::new();
        let mut i: usize = 0;
        while i < queue_max.len()
            invariant
                0 <= i <= queue_max@.len(),
                queues@.len() == i,
                forall|j: int|
                    0 <= j < i ==> (#[trigger] queues@[j]).max == queue_max@[j] && queues@[j].config
                        is None,
            decreases queue_max@.len() - i,
        {
            queues.push(QueueRegisters { max: queue_max[i], config: None });
            i = i + 1;
        }
        let t = SimulatedTransport {
            device_type,
            vendor_id,
            status: 0,
            offered,
            required,
            accepted: 0,
            queues,
            notifications: Vec::new(),
            interrupt_pending: false,
            config,
        };
        t
    }

    /// The device's side: raises an interrupt.
    pub fn raise_interrupt(&mut self)
        requires
            old(self).wf(),
        ensures
            final(self).wf(),
            final(self).required() == old(self).required(),
            final(self).view() == (TransportState {
                interrupt_pending: true,
                ..old(self).view()
            }),
    {
        self.interrupt_pending = true;
    }

    /// The features the driver has written back.
    pub fn driver_features(&self) -> (f: u64)
        ensures
            f == self.view().accepted,
    {
        self.accepted
    }

    /// What the driver has programmed for the queue at `queue`, if anything.
    pub fn queue_config(&self, queue: u16) -> (c: Option<QueueConfig>)
        ensures
            c == if self.view().queues.dom().contains(queue) {
                Some(self.view().queues[queue])
            } else {
                None
            },
    {
        if (queue as usize) < self.queues.len() {
            self.queues[queue as usize].config
        } else {
            None
        }
    }

    /// How many notifications the driver has sent.
    pub fn notification_count(&self) -> (n: usize)
        ensures
            n == self.view().notifications.len(),
    {
        self.notifications.len()
    }

    /// The queue index of the notification at position `i`, oldest first.
    pub fn notification(&self, i: usize) -> (q: Option<u16>)
        ensures
            q == if i < self.view().notifications.len() {
                Some(self.view().notifications[i as int])
            } else {
                None
            },
    {
        if i < self.notifications.len() {
            Some(self.notifications[i])
        } else {
            None
        }
    }

    /// Forgets what was programmed for every queue.
    fn clear_queues(&mut self)
        ensures
            final(self).queues@.len() == old(self).queues@.len(),
            forall|j: int|
                0 <= j < final(self).queues@.len() ==> (#[trigger] final(self).queues@[j]).max
                    == old(self).queues@[j].max && final(self).queues@[j].config is None,
            final(self).device_type == old(self).device_type,
            final(self).vendor_id == old(self).vendor_id,
            final(self).status == old(self).status,
            final(self).offered == old(self).offered,
            final(self).required == old(self).required,
            final(self).accepted == old(self).accepted,
            final(self).notifications == old(self).notifications,
            final(self).interrupt_pending == old(self).interrupt_pending,
            final(self).config == old(self).config,
    {
        let mut i: usize = 0;
        while i < self.queues.len()
            invariant
                0 <= i <= self.queues@.len(),
                self.queues@.len() == old(self).queues@.len(),
                forall|j: int|
                    0 <= j < self.queues@.len() ==> (#[trigger] self.queues@[j]).max == old(
                        self,
                    ).queues@[j].max,
                forall|j: int| 0 <= j < i ==> (#[trigger] self.queues@[j]).config is None,
                self.device_type == old(self).device_type,
                self.vendor_id == old(self).vendor_id,
                self.status == old(self).status,
                self.offered == old(self).offered,
                self.required == old(self).required,
                self.accepted == old(self).accepted,
                self.notifications == old(self).notifications,
                self.interrupt_pending == old(self).interrupt_pending,
                self.config == old(self).config,
            decreases self.queues@.len() - i,
        {
            let max = self.queues[i].max;
            self.queues.set(i, QueueRegisters { max, config: None });
            i = i + 1;
        }
    }
}

impl Transport for SimulatedTransport {
    closed spec fn view(&self) -> TransportState {
        TransportState {
            device_type: self.device_type,
            vendor_id: self.vendor_id,
            status: self.status,
            offered: self.offered,
            acceptable: acceptable_sets(self.offered, self.required),
            accepted: self.accepted,
            queue_max: maxima(self.queues@),
            queues: programmed(self.queues@),
            notifications: self.notifications@,
            interrupt_pending: self.interrupt_pending,
            config: self.config@,
        }
    }

    open spec fn wf(&self) -> bool {
        true
    }

    fn device_type(&self) -> (t: DeviceType) {
        self.device_type
    }

    fn vendor_id(&self) -> (v: u32) {
        self.vendor_id
    }

    fn read_device_features(&mut self) -> (f: u64) {
        self.offered
    }

    fn write_driver_features(&mut self, features: u64) {
        self.accepted = features;
    }

    fn max_queue_size(&mut self, queue: u16) -> (m: u32) {
        if (queue as usize) < self.queues.len() {
            self.queues[queue as usize].max
        } else {
            0
        }
    }

    fn get_status(&self) -> (s: u8) {
        self.status
    }

    fn set_status(&mut self, status: u8) {
        if status == 0 {
            self.clear_queues();
            self.status = 0;
            self.accepted = 0;
            self.interrupt_pending = false;
        } else if status & STATUS_FEATURES_OK != 0 && !(self.accepted & !self.offered == 0
            && self.accepted & self.required == self.required) {
            self.status = status & !STATUS_FEATURES_OK;
        } else {
            self.status = status;
        }
    }

    fn queue_set(
        &mut self,
        queue: u16,
        size: u32,
        descriptors: PhysAddr,
        driver_area: PhysAddr,
        device_area: PhysAddr,
    ) -> (r: Result<(), Error>) {
        if (queue as usize) >= self.queues.len() {
            return Err(Error::QueueTooLarge);
        }
        let max = self.queues[queue as usize].max;
        if size > max {
            return Err(Error::QueueTooLarge);
        }
        let config = QueueConfig { size, descriptors, driver_area, device_area };
        self.queues.set(queue as usize, QueueRegisters { max, config: Some(config) });
        Ok(())
    }

    fn notify(&mut self, queue: u16) {
        self.notifications.push(queue);
    }

    fn ack_interrupt(&mut self) -> (pending: bool) {
        let pending = self.interrupt_pending;
        self.interrupt_pending = false;
        pending
    }

    fn config_space(&self, size: usize) -> (r: Result<Vec<u8>, Error>) {
        if size > self.config.len() {
            return Err(Error::InvalidConfiguration);
        }
        let mut bytes: Vec<u8> = Vec::new();
        let mut i: usize = 0;
        while i < size
            invariant
                0 <= i <= size <= self.config@.len(),
                bytes@ == self.config@.subrange(0, i as int),
            decreases size - i,
        {
            bytes.push(self.config[i]);
            i = i + 1;
        }
        Ok(bytes)
    }
}

} // verus!
