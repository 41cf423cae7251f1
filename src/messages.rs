use vstd::prelude::*;

verus! {

/// A message service to be run on a port.
pub struct MessageApp {
    port: u16,
}

impl MessageApp {
    /// The port the service listens on.
    pub closed spec fn spec_port(&self) -> u16 {
        self.port
    }

    pub fn new(port: u16) -> (r: MessageApp)
        ensures
            r.spec_port() == port,
    {
        MessageApp { port }
    }

    pub fn port(&self) -> (r: u16)
        ensures
            r == self.spec_port(),
    {
        self.port
    }
}

/// The answer to a request for the message list.
pub struct IndexResponse {
    pub server_id: usize,
    pub request_count: usize,
    pub message: Vec<String>,
}

/// The answer to a posted message.
pub struct PostResponse {
    pub server_id: usize,
    pub request_count: usize,
    pub message: String,
}

/// The answer to a post whose body could not be read.
pub struct PostError {
    pub server_id: usize,
    pub request_count: usize,
    pub error: String,
}

/// What one worker of the service counts: its id and the requests it has
/// answered. The message list itself is shared by all workers.
pub struct WorkerState {
    pub server_id: usize,
    pub request_count: usize,
}

impl WorkerState {
    pub fn new(server_id: usize) -> (r: WorkerState)
        ensures
            r.server_id == server_id,
            r.request_count == 0,
    {
        WorkerState { server_id, request_count: 0 }
    }

    /// Counts one more request and returns the new count.
    fn count_request(&mut self) -> (r: usize)
        requires
            old(self).request_count < usize::MAX,
        ensures
            final(self).server_id == old(self).server_id,
            final(self).request_count == old(self).request_count + 1,
            r == final(self).request_count,
    {
        self.request_count = self.request_count + 1;
        self.request_count
    }

    /// Answers a request for the message list: counts it and returns every
    /// message, oldest first.
    pub fn index(&mut self, messages: &Vec<String>) -> (r: IndexResponse)
        requires
            old(self).request_count < usize::MAX,
        ensures
            final(self).server_id == old(self).server_id,
            final(self).request_count == old(self).request_count + 1,
            r.server_id == old(self).server_id,
            r.request_count == final(self).request_count,
            r.message@ == messages@,
    {
        let request_count = self.count_request();
        let mut copy: Vec<String> = Vec::new();
        let mut i: usize = 0;
        while i < messages.len()
            invariant
                i <= messages.len(),
                copy@ == messages@.subrange(0, i as int),
            decreases messages.len() - i,
        {
            copy.push(messages[i].clone());
            i = i + 1;
            assert(copy@ =~= messages@.subrange(0, i as int));
        }
        assert(copy@ =~= messages@);
        IndexResponse { server_id: self.server_id, request_count, message: copy }
    }

    /// Answers a request to clear the list: counts it and empties the list.
    pub fn clear(&mut self, messages: &mut Vec<String>) -> (r: IndexResponse)
        requires
            old(self).request_count < usize::MAX,
        ensures
            final(self).server_id == old(self).server_id,
            final(self).request_count == old(self).request_count + 1,
            final(messages)@.len() == 0,
            r.server_id == old(self).server_id,
            r.request_count == final(self).request_count,
            r.message@.len() == 0,
    {
        let request_count = self.count_request();
        messages.clear();
        IndexResponse { server_id: self.server_id, request_count, message: Vec::new() }
    }

    /// Answers a posted message: counts it, appends it to the list and
    /// echoes it.
    pub fn post(&mut self, messages: &mut Vec<String>, message: String) -> (r: PostResponse)
        requires
            old(self).request_count < usize::MAX,
        ensures
            final(self).server_id == old(self).server_id,
            final(self).request_count == old(self).request_count + 1,
            final(messages)@ == old(messages)@.push(message),
            r.server_id == old(self).server_id,
            r.request_count == final(self).request_count,
            r.message == message,
    {
        let request_count = self.count_request();
        messages.push(message.clone());
        PostResponse { server_id: self.server_id, request_count, message }
    }

    /// Answers a post whose body could not be read: counts it and reports
    /// `error`.
    pub fn post_error(&mut self, error: String) -> (r: PostError)
        requires
            old(self).request_count < usize::MAX,
        ensures
            final(self).server_id == old(self).server_id,
            final(self).request_count == old(self).request_count + 1,
            r.server_id == old(self).server_id,
            r.request_count == final(self).request_count,
            r.error == error,
    {
        let request_count = self.count_request();
        PostError { server_id: self.server_id, request_count, error }
    }
}

} // verus!
